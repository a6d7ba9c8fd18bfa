//! Tickers: the stock symbols that a portfolio holds.

use crate::adapters::fresh_id;
use crate::error::StoreError;
use crate::rows::{
    find_first, find_last, first_where, last_where, lemma_first_where, lemma_last_where,
};
use crate::schema::{Database, Tables};
use vstd::prelude::*;
use vstd::string::*;

verus! {

/// A ticker: `name` is the stock symbol.
#[derive(Debug, Clone, PartialEq, Eq)]
pub struct Ticker {
    pub id: String,
    pub name: String,
    pub portfolio_id: String,
    pub is_deleted: bool,
}

/// A [`Ticker`] as a mathematical value.
pub struct TickerRow {
    pub id: Seq<char>,
    pub name: Seq<char>,
    pub portfolio_id: Seq<char>,
    pub is_deleted: bool,
}

impl View for Ticker {
    type V = TickerRow;

    open spec fn view(&self) -> TickerRow {
        TickerRow {
            id: self.id@,
            name: self.name@,
            portfolio_id: self.portfolio_id@,
            is_deleted: self.is_deleted,
        }
    }
}

/// The records of `tickers` as mathematical values.
pub open spec fn ticker_rows(tickers: Seq<Ticker>) -> Seq<TickerRow> {
    tickers.map_values(|t: Ticker| t@)
}

/// The tickers with identifier `id`, deleted or not.
pub open spec fn ticker_with_id(id: Seq<char>) -> spec_fn(TickerRow) -> bool {
    |t: TickerRow| t.id == id
}

/// The tickers with identifier `id` that are not deleted.
pub open spec fn live_ticker_with_id(id: Seq<char>) -> spec_fn(TickerRow) -> bool {
    |t: TickerRow| t.id == id && !t.is_deleted
}

/// The tickers of portfolio `portfolio_id` that are not deleted.
pub open spec fn live_ticker_of(portfolio_id: Seq<char>) -> spec_fn(TickerRow) -> bool {
    |t: TickerRow| t.portfolio_id == portfolio_id && !t.is_deleted
}

/// The tickers of portfolio `portfolio_id` with symbol `name` that are not
/// deleted.
pub open spec fn live_ticker_named(name: Seq<char>, portfolio_id: Seq<char>) -> spec_fn(
    TickerRow,
) -> bool {
    |t: TickerRow| t.portfolio_id == portfolio_id && t.name == name && !t.is_deleted
}

/// `row`, deleted if it is a ticker of portfolio `portfolio_id`.
pub open spec fn deleted_with_portfolio(row: TickerRow, portfolio_id: Seq<char>) -> TickerRow {
    if row.portfolio_id == portfolio_id {
        TickerRow { is_deleted: true, ..row }
    } else {
        row
    }
}

impl Tables {
    /// These tables with `row` in place of the ticker at position `i`.
    pub open spec fn with_ticker(self, i: int, row: TickerRow) -> Tables {
        Tables { tickers: self.tickers.update(i, row), ..self }
    }

    /// These tables with `row` added behind the other tickers.
    pub open spec fn plus_ticker(self, row: TickerRow) -> Tables {
        Tables { tickers: self.tickers.push(row), ..self }
    }

    /// These tables after every ticker of portfolio `portfolio_id` is
    /// deleted.
    pub open spec fn without_tickers_of(self, portfolio_id: Seq<char>) -> Tables {
        Tables {
            tickers: self.tickers.map_values(
                |t: TickerRow| deleted_with_portfolio(t, portfolio_id),
            ),
            ..self
        }
    }
}

impl Ticker {
    /// A copy of this record.
    pub fn duplicate(&self) -> (copy: Ticker)
        ensures
            copy@ == self@,
    {
        Ticker {
            id: self.id.clone(),
            name: self.name.clone(),
            portfolio_id: self.portfolio_id.clone(),
            is_deleted: self.is_deleted,
        }
    }

    /// Whether two records read alike in every field.
    pub fn same(&self, other: &Ticker) -> (alike: bool)
        ensures
            alike == (self@ == other@),
    {
        self.id == other.id && self.name == other.name && self.portfolio_id == other.portfolio_id
            && self.is_deleted == other.is_deleted
    }

    /// A new ticker under a fresh random identifier.
    pub fn new(name: String, portfolio_id: String) -> (ticker: Ticker)
        ensures
            ticker.name@ == name@,
            ticker.portfolio_id@ == portfolio_id@,
            !ticker.is_deleted,
            ticker.id@.len() == 36,
    {
        Ticker { id: fresh_id(), name, portfolio_id, is_deleted: false }
    }

    /// The tickers of portfolio `portfolio_id` that are not deleted, in the
    /// order in which they were added.
    pub fn get_all_from_portfolio(db: &Database, portfolio_id: String) -> (r: Result<
        Vec<Ticker>,
        StoreError,
    >)
        ensures
            r matches Ok(list) && ticker_rows(list@) == db@.tickers.filter(
                live_ticker_of(portfolio_id@),
            ),
    {
        let mut list: Vec<Ticker> = Vec::new();
        let n = db.tickers.len();
        let ghost wanted = live_ticker_of(portfolio_id@);
        let mut i: usize = 0;
        proof {
            assert(db@.tickers.take(0) =~= Seq::<TickerRow>::empty());
            reveal(Seq::filter);
            assert(ticker_rows(list@) =~= db@.tickers.take(0).filter(wanted));
        }
        while i < n
            invariant
                n == db.tickers@.len(),
                i <= n,
                wanted == live_ticker_of(portfolio_id@),
                ticker_rows(list@) == db@.tickers.take(i as int).filter(wanted),
            decreases n - i,
        {
            let t = &db.tickers[i];
            proof {
                let before = db@.tickers.take(i as int);
                assert(db@.tickers.take(i + 1) =~= before.push(t@));
                before.lemma_filter_push(t@, wanted);
            }
            if t.portfolio_id == portfolio_id && !t.is_deleted {
                let ghost earlier = list@;
                list.push(t.duplicate());
                assert(ticker_rows(list@) =~= ticker_rows(earlier).push(t@));
            }
            i += 1;
        }
        assert(db@.tickers.take(n as int) =~= db@.tickers);
        Ok(list)
    }

    /// The ticker with identifier `ticker_id`, unless it is deleted. The key
    /// is the ticker's own identifier; the identifier of the portfolio that
    /// holds the ticker plays no part.
    pub fn get_by_id(db: &Database, ticker_id: &String) -> (r: Result<Option<Ticker>, StoreError>)
        ensures
            r matches Ok(found),
            match find_last(db@.tickers, live_ticker_with_id(ticker_id@)) {
                Some(row) => r matches Ok(Some(t)) && t@ == row,
                None => r matches Ok(None),
            },
    {
        let ghost wanted = live_ticker_with_id(ticker_id@);
        let mut i: usize = db.tickers.len();
        while i > 0 && !(db.tickers[i - 1].id == *ticker_id && !db.tickers[i - 1].is_deleted)
            invariant
                i <= db.tickers@.len(),
                wanted == live_ticker_with_id(ticker_id@),
                last_where(db@.tickers, wanted, db@.tickers.len() as int) == last_where(
                    db@.tickers,
                    wanted,
                    i as int,
                ),
            decreases i,
        {
            i -= 1;
        }
        if i > 0 {
            Ok(Some(db.tickers[i - 1].duplicate()))
        } else {
            Ok(None)
        }
    }

    /// The ticker with symbol `name` added last to portfolio `portfolio_id`
    /// among those not deleted.
    pub fn get_by_name(db: &Database, name: &String, portfolio_id: &String) -> (r: Result<
        Option<Ticker>,
        StoreError,
    >)
        ensures
            r matches Ok(found),
            match find_last(db@.tickers, live_ticker_named(name@, portfolio_id@)) {
                Some(row) => r matches Ok(Some(t)) && t@ == row,
                None => r matches Ok(None),
            },
    {
        let ghost wanted = live_ticker_named(name@, portfolio_id@);
        let mut i: usize = db.tickers.len();
        while i > 0 && !(db.tickers[i - 1].portfolio_id == *portfolio_id && db.tickers[i
            - 1].name == *name && !db.tickers[i - 1].is_deleted)
            invariant
                i <= db.tickers@.len(),
                wanted == live_ticker_named(name@, portfolio_id@),
                last_where(db@.tickers, wanted, db@.tickers.len() as int) == last_where(
                    db@.tickers,
                    wanted,
                    i as int,
                ),
            decreases i,
        {
            i -= 1;
        }
        if i > 0 {
            Ok(Some(db.tickers[i - 1].duplicate()))
        } else {
            Ok(None)
        }
    }

    /// Marks the ticker with identifier `ticker_id` as deleted and returns
    /// the record as it then stands. A ticker that is deleted already is not
    /// found.
    pub fn delete_ticker(db: &mut Database, ticker_id: &String) -> (r: Result<Ticker, StoreError>)
        ensures
            old(db).wf() ==> final(db).wf(),
            match find_first(old(db)@.tickers, live_ticker_with_id(ticker_id@)) {
                Some(row) => {
                    let changed = TickerRow { is_deleted: true, ..row };
                    &&& r matches Ok(t) && t@ == changed
                    &&& final(db)@ == old(db)@.with_ticker(
                        first_where(old(db)@.tickers, live_ticker_with_id(ticker_id@), 0),
                        changed,
                    )
                },
                None => r == Err::<Ticker, StoreError>(StoreError::NotFound) && final(db)@
                    == old(db)@,
            },
    {
        let n = db.tickers.len();
        let ghost wanted = live_ticker_with_id(ticker_id@);
        let mut i: usize = 0;
        while i < n && !(db.tickers[i].id == *ticker_id && !db.tickers[i].is_deleted)
            invariant
                n == db.tickers@.len(),
                i <= n,
                wanted == live_ticker_with_id(ticker_id@),
                first_where(db@.tickers, wanted, 0) == first_where(db@.tickers, wanted, i as int),
            decreases n - i,
        {
            i += 1;
        }
        if i < n {
            let updated = Ticker {
                id: db.tickers[i].id.clone(),
                name: db.tickers[i].name.clone(),
                portfolio_id: db.tickers[i].portfolio_id.clone(),
                is_deleted: true,
            };
            let copy = updated.duplicate();
            db.tickers.set(i, updated);
            assert(db@.tickers =~= old(db)@.tickers.update(i as int, copy@));
            Ok(copy)
        } else {
            assert(db@.tickers =~= old(db)@.tickers);
            Err(StoreError::NotFound)
        }
    }

    /// Marks every ticker of portfolio `portfolio_id` as deleted and returns,
    /// as they then stand, those that were not deleted before.
    pub fn delete_tickers(db: &mut Database, portfolio_id: &String) -> (r: Result<
        Vec<Ticker>,
        StoreError,
    >)
        ensures
            old(db).wf() ==> final(db).wf(),
            final(db)@ == old(db)@.without_tickers_of(portfolio_id@),
            r matches Ok(list) && ticker_rows(list@) == old(db)@.tickers.filter(
                live_ticker_of(portfolio_id@),
            ).map_values(|t: TickerRow| deleted_with_portfolio(t, portfolio_id@)),
    {
        let mut list: Vec<Ticker> = Vec::new();
        let n = db.tickers.len();
        let ghost wanted = live_ticker_of(portfolio_id@);
        let ghost mark = |t: TickerRow| deleted_with_portfolio(t, portfolio_id@);
        let ghost before = db@.tickers;
        let mut i: usize = 0;
        proof {
            assert(before.take(0) =~= Seq::<TickerRow>::empty());
            reveal(Seq::filter);
            assert(ticker_rows(list@) =~= before.take(0).filter(wanted).map_values(mark));
        }
        while i < n
            invariant
                n == db.tickers@.len(),
                i <= n,
                before == old(db)@.tickers,
                before.len() == n,
                wanted == live_ticker_of(portfolio_id@),
                mark == (|t: TickerRow| deleted_with_portfolio(t, portfolio_id@)),
                db.users == old(db).users,
                db.portfolios == old(db).portfolios,
                forall|j: int|
                    0 <= j < i ==> (#[trigger] db.tickers@[j])@ == deleted_with_portfolio(
                        before[j],
                        portfolio_id@,
                    ),
                forall|j: int| i <= j < n ==> (#[trigger] db.tickers@[j])@ == before[j],
                ticker_rows(list@) == before.take(i as int).filter(wanted).map_values(mark),
            decreases n - i,
        {
            proof {
                let seen = before.take(i as int);
                assert(before.take(i + 1) =~= seen.push(before[i as int]));
                seen.lemma_filter_push(before[i as int], wanted);
            }
            if db.tickers[i].portfolio_id == *portfolio_id {
                let was_live = !db.tickers[i].is_deleted;
                let updated = Ticker {
                    id: db.tickers[i].id.clone(),
                    name: db.tickers[i].name.clone(),
                    portfolio_id: db.tickers[i].portfolio_id.clone(),
                    is_deleted: true,
                };
                if was_live {
                    let ghost earlier = list@;
                    list.push(updated.duplicate());
                    assert(ticker_rows(list@) =~= ticker_rows(earlier).push(updated@));
                    assert(before.take(i as int).filter(wanted).push(before[i as int]).map_values(
                        mark,
                    ) =~= before.take(i as int).filter(wanted).map_values(mark).push(updated@));
                }
                db.tickers.set(i, updated);
            }
            i += 1;
        }
        proof {
            assert(before.take(n as int) =~= before);
            assert(db@.tickers =~= before.map_values(mark));
            assert(db@.users =~= old(db)@.users);
            assert(db@.portfolios =~= old(db)@.portfolios);
            assert(db@ == old(db)@.without_tickers_of(portfolio_id@));
        }
        Ok(list)
    }

    /// Adds `ticker` to the table, unless its identifier is taken.
    pub fn insert(db: &mut Database, ticker: Ticker) -> (r: Result<Ticker, StoreError>)
        ensures
            old(db).wf() ==> final(db).wf(),
            match find_first(old(db)@.tickers, ticker_with_id(ticker.id@)) {
                Some(_) => r == Err::<Ticker, StoreError>(StoreError::Duplicate) && final(db)@
                    == old(db)@,
                None => {
                    &&& r matches Ok(t) && t@ == ticker@
                    &&& final(db)@ == old(db)@.plus_ticker(ticker@)
                },
            },
    {
        let n = db.tickers.len();
        let ghost wanted = ticker_with_id(ticker.id@);
        let mut i: usize = 0;
        while i < n && db.tickers[i].id != ticker.id
            invariant
                n == db.tickers@.len(),
                i <= n,
                wanted == ticker_with_id(ticker.id@),
                first_where(db@.tickers, wanted, 0) == first_where(db@.tickers, wanted, i as int),
            decreases n - i,
        {
            i += 1;
        }
        if i < n {
            assert(db@.tickers =~= old(db)@.tickers);
            Err(StoreError::Duplicate)
        } else {
            let copy = ticker.duplicate();
            proof {
                lemma_first_where(old(db)@.tickers, wanted, 0);
            }
            db.tickers.push(ticker);
            assert(db@.tickers =~= old(db)@.tickers.push(copy@));
            Ok(copy)
        }
    }
}

/// Whether no stored ticker can have the identifier that is drawn for a new
/// one: none has an identifier of 36 characters.
pub open spec fn no_ticker_clashes(tickers: Seq<TickerRow>) -> bool {
    forall|i: int| 0 <= i < tickers.len() ==> (#[trigger] tickers[i]).id.len() != 36
}

/// What a user sends to have a ticker added to a portfolio.
#[derive(Debug, Clone, PartialEq, Eq)]
pub struct NewTicker {
    pub name: String,
    pub portfolio_id: String,
}

impl Tables {
    /// Whether the ticker `row` may be added: its portfolio has no ticker of
    /// that symbol that is not deleted, and its identifier is not taken.
    pub open spec fn admits_ticker(self, row: TickerRow) -> bool {
        &&& find_last(self.tickers, live_ticker_named(row.name, row.portfolio_id)) is None
        &&& find_first(self.tickers, ticker_with_id(row.id)) is None
    }
}

impl NewTicker {
    /// Adds `candidate` where the tables admit it, and refuses it as a
    /// duplicate where they do not.
    pub fn store(candidate: Ticker, db: &mut Database) -> (r: Result<Ticker, StoreError>)
        ensures
            old(db).wf() ==> final(db).wf(),
            if old(db)@.admits_ticker(candidate@) {
                &&& r matches Ok(t) && t@ == candidate@
                &&& final(db)@ == old(db)@.plus_ticker(candidate@)
            } else {
                r == Err::<Ticker, StoreError>(StoreError::Duplicate) && final(db)@ == old(db)@
            },
    {
        match Ticker::get_by_name(db, &candidate.name, &candidate.portfolio_id) {
            Ok(None) => Ticker::insert(db, candidate),
            _ => Err(StoreError::Duplicate),
        }
    }

    /// Adds a ticker with symbol `name` to portfolio `portfolio_id`, under a
    /// fresh identifier. It is refused as a duplicate where the portfolio has
    /// a ticker of that symbol that is not deleted, or where the identifier
    /// drawn is taken. The identifier drawn has 36 characters: where no stored
    /// identifier has as many, none can be taken, and the ticker is added
    /// unless the symbol stands against it.
    pub fn create(name: String, portfolio_id: String, db: &mut Database) -> (r: Result<
        Ticker,
        StoreError,
    >)
        ensures
            old(db).wf() ==> final(db).wf(),
            find_last(old(db)@.tickers, live_ticker_named(name@, portfolio_id@)) is Some ==> r
                is Err,
            find_last(old(db)@.tickers, live_ticker_named(name@, portfolio_id@)) is None
                && no_ticker_clashes(old(db)@.tickers) ==> r is Ok,
            match r {
                Ok(t) => {
                    &&& t.name@ == name@
                    &&& t.portfolio_id@ == portfolio_id@
                    &&& !t.is_deleted
                    &&& old(db)@.admits_ticker(t@)
                    &&& final(db)@ == old(db)@.plus_ticker(t@)
                },
                Err(e) => e == StoreError::Duplicate && final(db)@ == old(db)@,
            },
    {
        let ticker = Ticker::new(name, portfolio_id);
        proof {
            lemma_first_where(db@.tickers, ticker_with_id(ticker.id@), 0);
        }
        NewTicker::store(ticker, db)
    }
}

/// After a ticker is added, no second one of the same symbol is admitted to
/// the same portfolio.
pub proof fn lemma_second_ticker_refused(tables: Tables, first: TickerRow, second: TickerRow)
    requires
        !first.is_deleted,
        second.name == first.name,
        second.portfolio_id == first.portfolio_id,
    ensures
        !tables.plus_ticker(first).admits_ticker(second),
{
    let rows = tables.plus_ticker(first).tickers;
    assert(rows[rows.len() - 1] == first);
    lemma_last_where(rows, live_ticker_named(second.name, second.portfolio_id), rows.len() as int);
}

/// No portfolio has two tickers of one symbol that are not deleted.
pub open spec fn symbols_unique(tickers: Seq<TickerRow>) -> bool {
    forall|i: int, j: int|
        0 <= i < j < tickers.len() && !(#[trigger] tickers[i]).is_deleted && !(
        #[trigger] tickers[j]).is_deleted && tickers[i].portfolio_id == tickers[j].portfolio_id
            ==> tickers[i].name != tickers[j].name
}

/// Adding a ticker that the tables admit keeps the symbols of each
/// portfolio's tickers unique and the identifiers distinct.
pub proof fn lemma_admitted_ticker_keeps_symbols_unique(tables: Tables, row: TickerRow)
    requires
        tables.wf(),
        symbols_unique(tables.tickers),
        tables.admits_ticker(row),
    ensures
        tables.plus_ticker(row).wf(),
        symbols_unique(tables.plus_ticker(row).tickers),
{
    let rows = tables.tickers;
    lemma_last_where(rows, live_ticker_named(row.name, row.portfolio_id), rows.len() as int);
    lemma_first_where(rows, ticker_with_id(row.id), 0);
    let after = tables.plus_ticker(row).tickers;
    assert forall|i: int, j: int|
        0 <= i < j < after.len() && !(#[trigger] after[i]).is_deleted && !(
        #[trigger] after[j]).is_deleted && after[i].portfolio_id == after[j].portfolio_id
        implies after[i].name != after[j].name by {
        if j < rows.len() {
            assert(after[i] == rows[i] && after[j] == rows[j]);
        } else {
            assert(after[i] == rows[i]);
            assert(!live_ticker_named(row.name, row.portfolio_id)(rows[i]));
        }
    }
    assert forall|i: int, j: int| 0 <= i < j < after.len() implies (#[trigger] after[i]).id != (
    #[trigger] after[j]).id by {
        if j < rows.len() {
            assert(after[i] == rows[i] && after[j] == rows[j]);
        } else {
            assert(after[i] == rows[i]);
            assert(!ticker_with_id(row.id)(rows[i]));
        }
    }
}

} // verus!
