//! Portfolios: named collections of tickers, each owned by a user.

use crate::adapters::{fresh_id, today};
use crate::calendar::CalendarDate;
use crate::error::StoreError;
use crate::rows::{
    find_first, find_last, first_where, last_where, lemma_first_where, lemma_last_where,
};
use crate::schema::{Database, Tables};
use vstd::prelude::*;
use vstd::string::*;

verus! {

/// A portfolio.
#[derive(Debug, Clone, PartialEq, Eq)]
pub struct Portfolio {
    pub id: String,
    pub name: String,
    pub created_at: CalendarDate,
    pub is_deleted: bool,
    pub user_id: String,
}

/// A [`Portfolio`] as a mathematical value.
pub struct PortfolioRow {
    pub id: Seq<char>,
    pub name: Seq<char>,
    pub created_at: CalendarDate,
    pub is_deleted: bool,
    pub user_id: Seq<char>,
}

impl View for Portfolio {
    type V = PortfolioRow;

    open spec fn view(&self) -> PortfolioRow {
        PortfolioRow {
            id: self.id@,
            name: self.name@,
            created_at: self.created_at,
            is_deleted: self.is_deleted,
            user_id: self.user_id@,
        }
    }
}

/// The records of `portfolios` as mathematical values.
pub open spec fn portfolio_rows(portfolios: Seq<Portfolio>) -> Seq<PortfolioRow> {
    portfolios.map_values(|p: Portfolio| p@)
}

/// The portfolios with identifier `id`, deleted or not.
pub open spec fn portfolio_with_id(id: Seq<char>) -> spec_fn(PortfolioRow) -> bool {
    |p: PortfolioRow| p.id == id
}

/// The portfolios with identifier `id` that are not deleted.
pub open spec fn live_portfolio_with_id(id: Seq<char>) -> spec_fn(PortfolioRow) -> bool {
    |p: PortfolioRow| p.id == id && !p.is_deleted
}

/// The portfolios of user `user_id` that are not deleted.
pub open spec fn live_portfolio_of(user_id: Seq<char>) -> spec_fn(PortfolioRow) -> bool {
    |p: PortfolioRow| p.user_id == user_id && !p.is_deleted
}

/// The portfolios of user `user_id` called `name` that are not deleted.
pub open spec fn live_portfolio_named(name: Seq<char>, user_id: Seq<char>) -> spec_fn(
    PortfolioRow,
) -> bool {
    |p: PortfolioRow| p.user_id == user_id && p.name == name && !p.is_deleted
}

impl Tables {
    /// These tables with `row` in place of the portfolio at position `i`.
    pub open spec fn with_portfolio(self, i: int, row: PortfolioRow) -> Tables {
        Tables { portfolios: self.portfolios.update(i, row), ..self }
    }

    /// These tables with `row` added behind the other portfolios.
    pub open spec fn plus_portfolio(self, row: PortfolioRow) -> Tables {
        Tables { portfolios: self.portfolios.push(row), ..self }
    }

    /// These tables after the portfolio `id` is deleted, where it exists and
    /// is not deleted yet.
    pub open spec fn without_portfolio(self, id: Seq<char>) -> Tables {
        let i = first_where(self.portfolios, live_portfolio_with_id(id), 0);
        if i < self.portfolios.len() {
            self.with_portfolio(i, PortfolioRow { is_deleted: true, ..self.portfolios[i] })
        } else {
            self
        }
    }
}

impl Portfolio {
    /// A copy of this record.
    pub fn duplicate(&self) -> (copy: Portfolio)
        ensures
            copy@ == self@,
    {
        Portfolio {
            id: self.id.clone(),
            name: self.name.clone(),
            created_at: self.created_at,
            is_deleted: self.is_deleted,
            user_id: self.user_id.clone(),
        }
    }

    /// Whether two records read alike in every field.
    pub fn same(&self, other: &Portfolio) -> (alike: bool)
        ensures
            alike == (self@ == other@),
    {
        self.id == other.id && self.name == other.name && self.created_at == other.created_at
            && self.is_deleted == other.is_deleted && self.user_id == other.user_id
    }

    /// A new portfolio under a fresh random identifier, dated today.
    pub fn new(name: String, user_id: String) -> (portfolio: Portfolio)
        ensures
            portfolio.name@ == name@,
            portfolio.user_id@ == user_id@,
            !portfolio.is_deleted,
            portfolio.id@.len() == 36,
            1 <= portfolio.created_at.month <= 12,
            1 <= portfolio.created_at.day <= 31,
    {
        Portfolio { id: fresh_id(), name, created_at: today(), is_deleted: false, user_id }
    }

    /// The portfolios of user `user_id` that are not deleted, in the order of
    /// their creation.
    pub fn get_all_from_user(db: &Database, user_id: &String) -> (r: Result<
        Vec<Portfolio>,
        StoreError,
    >)
        ensures
            r matches Ok(list) && portfolio_rows(list@) == db@.portfolios.filter(
                live_portfolio_of(user_id@),
            ),
    {
        let mut list: Vec<Portfolio> = Vec::new();
        let n = db.portfolios.len();
        let ghost wanted = live_portfolio_of(user_id@);
        let mut i: usize = 0;
        proof {
            assert(db@.portfolios.take(0) =~= Seq::<PortfolioRow>::empty());
            reveal(Seq::filter);
            assert(portfolio_rows(list@) =~= db@.portfolios.take(0).filter(wanted));
        }
        while i < n
            invariant
                n == db.portfolios@.len(),
                i <= n,
                wanted == live_portfolio_of(user_id@),
                portfolio_rows(list@) == db@.portfolios.take(i as int).filter(wanted),
            decreases n - i,
        {
            let p = &db.portfolios[i];
            proof {
                let before = db@.portfolios.take(i as int);
                assert(db@.portfolios.take(i + 1) =~= before.push(p@));
                before.lemma_filter_push(p@, wanted);
            }
            if p.user_id == *user_id && !p.is_deleted {
                let ghost earlier = list@;
                list.push(p.duplicate());
                assert(portfolio_rows(list@) =~= portfolio_rows(earlier).push(p@));
            }
            i += 1;
        }
        assert(db@.portfolios.take(n as int) =~= db@.portfolios);
        Ok(list)
    }

    /// Where the first portfolio with identifier `id` that is not deleted
    /// stands, or the number of portfolios where there is none.
    fn live_position(db: &Database, id: &String) -> (i: usize)
        ensures
            i == first_where(db@.portfolios, live_portfolio_with_id(id@), 0),
            i <= db.portfolios@.len(),
            i < db.portfolios@.len() ==> db.portfolios@[i as int].id@ == id@
                && !db.portfolios@[i as int].is_deleted,
    {
        let n = db.portfolios.len();
        let mut i: usize = 0;
        while i < n && !(db.portfolios[i].id == *id && !db.portfolios[i].is_deleted)
            invariant
                n == db.portfolios@.len(),
                i <= n,
                first_where(db@.portfolios, live_portfolio_with_id(id@), 0) == first_where(
                    db@.portfolios,
                    live_portfolio_with_id(id@),
                    i as int,
                ),
            decreases n - i,
        {
            i += 1;
        }
        i
    }

    /// The portfolio with identifier `id`, unless it is deleted.
    pub fn get_by_id(db: &Database, id: String) -> (r: Result<Portfolio, StoreError>)
        ensures
            match find_first(db@.portfolios, live_portfolio_with_id(id@)) {
                Some(row) => r matches Ok(p) && p@ == row,
                None => r == Err::<Portfolio, StoreError>(StoreError::NotFound),
            },
    {
        let i = Portfolio::live_position(db, &id);
        if i < db.portfolios.len() {
            Ok(db.portfolios[i].duplicate())
        } else {
            Err(StoreError::NotFound)
        }
    }

    /// The portfolio that user `user_id` created last under `name` among
    /// those not deleted.
    pub fn get_by_name(db: &Database, name: &String, user_id: &String) -> (r: Result<
        Option<Portfolio>,
        StoreError,
    >)
        ensures
            r matches Ok(found),
            match find_last(db@.portfolios, live_portfolio_named(name@, user_id@)) {
                Some(row) => r matches Ok(Some(p)) && p@ == row,
                None => r matches Ok(None),
            },
    {
        let ghost wanted = live_portfolio_named(name@, user_id@);
        let mut i: usize = db.portfolios.len();
        while i > 0 && !(db.portfolios[i - 1].user_id == *user_id && db.portfolios[i - 1].name
            == *name && !db.portfolios[i - 1].is_deleted)
            invariant
                i <= db.portfolios@.len(),
                wanted == live_portfolio_named(name@, user_id@),
                last_where(db@.portfolios, wanted, db@.portfolios.len() as int) == last_where(
                    db@.portfolios,
                    wanted,
                    i as int,
                ),
            decreases i,
        {
            i -= 1;
        }
        if i > 0 {
            Ok(Some(db.portfolios[i - 1].duplicate()))
        } else {
            Ok(None)
        }
    }

    /// Renames the portfolio with this record's identifier, unless it is
    /// deleted, and returns the record as it then stands.
    pub fn update_name(self, db: &mut Database, name: String) -> (r: Result<
        Portfolio,
        StoreError,
    >)
        ensures
            old(db).wf() ==> final(db).wf(),
            match find_first(old(db)@.portfolios, live_portfolio_with_id(self.id@)) {
                Some(row) => {
                    let changed = PortfolioRow { name: name@, ..row };
                    &&& r matches Ok(p) && p@ == changed
                    &&& final(db)@ == old(db)@.with_portfolio(
                        first_where(old(db)@.portfolios, live_portfolio_with_id(self.id@), 0),
                        changed,
                    )
                },
                None => r == Err::<Portfolio, StoreError>(StoreError::NotFound) && final(db)@
                    == old(db)@,
            },
    {
        let i = Portfolio::live_position(db, &self.id);
        if i < db.portfolios.len() {
            let updated = Portfolio {
                id: db.portfolios[i].id.clone(),
                name,
                created_at: db.portfolios[i].created_at,
                is_deleted: db.portfolios[i].is_deleted,
                user_id: db.portfolios[i].user_id.clone(),
            };
            let copy = updated.duplicate();
            db.portfolios.set(i, updated);
            assert(db@.portfolios =~= old(db)@.portfolios.update(i as int, copy@));
            Ok(copy)
        } else {
            assert(db@.portfolios =~= old(db)@.portfolios);
            Err(StoreError::NotFound)
        }
    }

    /// Marks the portfolio with identifier `portfolio_id` as deleted and
    /// returns the record as it then stands. A portfolio that is deleted
    /// already is not found.
    pub fn delete_portfolio(db: &mut Database, portfolio_id: &String) -> (r: Result<
        Portfolio,
        StoreError,
    >)
        ensures
            old(db).wf() ==> final(db).wf(),
            final(db)@ == old(db)@.without_portfolio(portfolio_id@),
            match find_first(old(db)@.portfolios, live_portfolio_with_id(portfolio_id@)) {
                Some(row) => r matches Ok(p) && p@ == (PortfolioRow { is_deleted: true, ..row }),
                None => r == Err::<Portfolio, StoreError>(StoreError::NotFound),
            },
    {
        let i = Portfolio::live_position(db, portfolio_id);
        if i < db.portfolios.len() {
            let updated = Portfolio {
                id: db.portfolios[i].id.clone(),
                name: db.portfolios[i].name.clone(),
                created_at: db.portfolios[i].created_at,
                is_deleted: true,
                user_id: db.portfolios[i].user_id.clone(),
            };
            let copy = updated.duplicate();
            db.portfolios.set(i, updated);
            assert(db@.portfolios =~= old(db)@.portfolios.update(i as int, copy@));
            Ok(copy)
        } else {
            assert(db@.portfolios =~= old(db)@.portfolios);
            Err(StoreError::NotFound)
        }
    }

    /// Adds `portfolio` to the table, unless its identifier is taken.
    pub fn insert(db: &mut Database, portfolio: Portfolio) -> (r: Result<Portfolio, StoreError>)
        ensures
            old(db).wf() ==> final(db).wf(),
            match find_first(old(db)@.portfolios, portfolio_with_id(portfolio.id@)) {
                Some(_) => r == Err::<Portfolio, StoreError>(StoreError::Duplicate) && final(db)@
                    == old(db)@,
                None => {
                    &&& r matches Ok(p) && p@ == portfolio@
                    &&& final(db)@ == old(db)@.plus_portfolio(portfolio@)
                },
            },
    {
        let n = db.portfolios.len();
        let ghost wanted = portfolio_with_id(portfolio.id@);
        let mut i: usize = 0;
        while i < n && db.portfolios[i].id != portfolio.id
            invariant
                n == db.portfolios@.len(),
                i <= n,
                wanted == portfolio_with_id(portfolio.id@),
                first_where(db@.portfolios, wanted, 0) == first_where(
                    db@.portfolios,
                    wanted,
                    i as int,
                ),
            decreases n - i,
        {
            i += 1;
        }
        if i < n {
            assert(db@.portfolios =~= old(db)@.portfolios);
            Err(StoreError::Duplicate)
        } else {
            let copy = portfolio.duplicate();
            proof {
                lemma_first_where(old(db)@.portfolios, wanted, 0);
            }
            db.portfolios.push(portfolio);
            assert(db@.portfolios =~= old(db)@.portfolios.push(copy@));
            Ok(copy)
        }
    }
}

/// Whether no stored portfolio can have the identifier that is drawn for a
/// new one: none has an identifier of 36 characters.
pub open spec fn no_portfolio_clashes(portfolios: Seq<PortfolioRow>) -> bool {
    forall|i: int| 0 <= i < portfolios.len() ==> (#[trigger] portfolios[i]).id.len() != 36
}

/// What a user sends to have a portfolio created.
#[derive(Debug, Clone, PartialEq, Eq)]
pub struct NewPortfolio {
    pub name: String,
    pub user_id: String,
}

impl Tables {
    /// Whether the portfolio `row` may be added: its owner has no portfolio of
    /// that name that is not deleted, and its identifier is not taken.
    pub open spec fn admits_portfolio(self, row: PortfolioRow) -> bool {
        &&& find_last(self.portfolios, live_portfolio_named(row.name, row.user_id)) is None
        &&& find_first(self.portfolios, portfolio_with_id(row.id)) is None
    }
}

impl NewPortfolio {
    /// Adds `candidate` where the tables admit it, and refuses it as a
    /// duplicate where they do not.
    pub fn store(candidate: Portfolio, db: &mut Database) -> (r: Result<Portfolio, StoreError>)
        ensures
            old(db).wf() ==> final(db).wf(),
            if old(db)@.admits_portfolio(candidate@) {
                &&& r matches Ok(p) && p@ == candidate@
                &&& final(db)@ == old(db)@.plus_portfolio(candidate@)
            } else {
                r == Err::<Portfolio, StoreError>(StoreError::Duplicate) && final(db)@ == old(db)@
            },
    {
        match Portfolio::get_by_name(db, &candidate.name, &candidate.user_id) {
            Ok(None) => Portfolio::insert(db, candidate),
            _ => Err(StoreError::Duplicate),
        }
    }

    /// Creates a portfolio called `name` for user `user_id`, under a fresh
    /// identifier and dated today. It is refused as a duplicate where the user
    /// has a portfolio of that name that is not deleted, or where the
    /// identifier drawn is taken. The identifier drawn has 36 characters: where
    /// no stored identifier has as many, none can be taken, and the portfolio
    /// is created unless the name stands against it.
    pub fn create(name: String, user_id: String, db: &mut Database) -> (r: Result<
        Portfolio,
        StoreError,
    >)
        ensures
            old(db).wf() ==> final(db).wf(),
            find_last(old(db)@.portfolios, live_portfolio_named(name@, user_id@)) is Some ==> r
                is Err,
            find_last(old(db)@.portfolios, live_portfolio_named(name@, user_id@)) is None
                && no_portfolio_clashes(old(db)@.portfolios) ==> r is Ok,
            match r {
                Ok(p) => {
                    &&& p.name@ == name@
                    &&& p.user_id@ == user_id@
                    &&& !p.is_deleted
                    &&& old(db)@.admits_portfolio(p@)
                    &&& final(db)@ == old(db)@.plus_portfolio(p@)
                },
                Err(e) => e == StoreError::Duplicate && final(db)@ == old(db)@,
            },
    {
        let portfolio = Portfolio::new(name, user_id);
        proof {
            lemma_first_where(db@.portfolios, portfolio_with_id(portfolio.id@), 0);
        }
        NewPortfolio::store(portfolio, db)
    }
}

/// After a portfolio is added, no second one of the same name is admitted
/// for the same user.
pub proof fn lemma_second_portfolio_refused(
    tables: Tables,
    first: PortfolioRow,
    second: PortfolioRow,
)
    requires
        !first.is_deleted,
        second.name == first.name,
        second.user_id == first.user_id,
    ensures
        !tables.plus_portfolio(first).admits_portfolio(second),
{
    let rows = tables.plus_portfolio(first).portfolios;
    assert(rows[rows.len() - 1] == first);
    lemma_last_where(rows, live_portfolio_named(second.name, second.user_id), rows.len() as int);
}

/// Once a portfolio is deleted, deleting it again changes nothing: it is no
/// longer found among the portfolios that are not deleted.
pub proof fn lemma_portfolio_deleted_once(tables: Tables, id: Seq<char>)
    requires
        tables.wf(),
    ensures
        find_first(tables.without_portfolio(id).portfolios, live_portfolio_with_id(id)) is None,
        tables.without_portfolio(id).without_portfolio(id) == tables.without_portfolio(id),
{
    let wanted = live_portfolio_with_id(id);
    let after = tables.without_portfolio(id).portfolios;
    lemma_first_where(tables.portfolios, wanted, 0);
    lemma_first_where(after, wanted, 0);
    let i = first_where(tables.portfolios, wanted, 0);
    let k = first_where(after, wanted, 0);
    if k < after.len() {
        if i < tables.portfolios.len() {
            assert(k != i);
            assert(after[k] == tables.portfolios[k]);
            assert(tables.portfolios[k].id == tables.portfolios[i].id);
        } else {
            assert(wanted(tables.portfolios[k]));
        }
    }
}

/// No user has two portfolios of one name that are not deleted.
pub open spec fn names_unique(portfolios: Seq<PortfolioRow>) -> bool {
    forall|i: int, j: int|
        0 <= i < j < portfolios.len() && !(#[trigger] portfolios[i]).is_deleted && !(
        #[trigger] portfolios[j]).is_deleted && portfolios[i].user_id == portfolios[j].user_id
            ==> portfolios[i].name != portfolios[j].name
}

/// Adding a portfolio that the tables admit keeps the names of each user's
/// portfolios unique and the identifiers distinct.
pub proof fn lemma_admitted_portfolio_keeps_names_unique(tables: Tables, row: PortfolioRow)
    requires
        tables.wf(),
        names_unique(tables.portfolios),
        tables.admits_portfolio(row),
    ensures
        tables.plus_portfolio(row).wf(),
        names_unique(tables.plus_portfolio(row).portfolios),
{
    let rows = tables.portfolios;
    lemma_last_where(rows, live_portfolio_named(row.name, row.user_id), rows.len() as int);
    lemma_first_where(rows, portfolio_with_id(row.id), 0);
    let after = tables.plus_portfolio(row).portfolios;
    assert forall|i: int, j: int|
        0 <= i < j < after.len() && !(#[trigger] after[i]).is_deleted && !(
        #[trigger] after[j]).is_deleted && after[i].user_id == after[j].user_id implies after[i]
        .name != after[j].name by {
        if j < rows.len() {
            assert(after[i] == rows[i] && after[j] == rows[j]);
        } else {
            assert(after[i] == rows[i]);
            assert(!live_portfolio_named(row.name, row.user_id)(rows[i]));
        }
    }
    assert forall|i: int, j: int| 0 <= i < j < after.len() implies (#[trigger] after[i]).id != (
    #[trigger] after[j]).id by {
        if j < rows.len() {
            assert(after[i] == rows[i] && after[j] == rows[j]);
        } else {
            assert(after[i] == rows[i]);
            assert(!portfolio_with_id(row.id)(rows[i]));
        }
    }
}

} // verus!
