//! The handlers: what each route does with the store and what it replies.

use crate::error::StoreError;
use crate::infrastructure::reply::{
    Body, Reply, BAD_REQUEST, CREATED, INTERNAL_SERVER_ERROR, NOT_FOUND, OK, UPSTREAM_FAILED,
};
use crate::models::authentication::{issued_now, AuthUser, TokenSettings};
use crate::models::portfolio::{
    lemma_portfolio_deleted_once, live_portfolio_named, live_portfolio_of,
    live_portfolio_with_id, no_portfolio_clashes, portfolio_rows, NewPortfolio, Portfolio,
    PortfolioRow,
};
use crate::models::ticker::{
    deleted_with_portfolio, live_ticker_named, live_ticker_of, live_ticker_with_id,
    no_ticker_clashes, ticker_rows, NewTicker, Ticker, TickerRow,
};
use crate::models::user::{
    live_user_with_id, no_user_clashes, user_rows, user_with_email, user_with_id, NewUser, User,
    UserRow,
};
use crate::adapters::hash_opens;
use crate::rows::{
    any_where, find_first, find_last, first_where, lemma_find_first_any, lemma_first_where,
};
use crate::schema::{distinct_portfolios, Database, Tables};
use crate::validation::{is_email, is_strong_password, verify_email, verify_password};
use vstd::prelude::*;
use vstd::string::*;

verus! {

/// A request body that names a record and gives a new value for one of its
/// fields. Requests that only name a record leave the value unused.
#[derive(Debug, Clone, PartialEq, Eq)]
pub struct IdAndValue {
    pub id: String,
    pub value: String,
}

/// A portfolio that was deleted, with the tickers that went with it.
#[derive(Debug, Clone, PartialEq, Eq)]
pub struct PortfolioAndTickers {
    pub portfolio: Portfolio,
    pub tickers: Vec<Ticker>,
}

/// The reply to a login: on success it carries the token in its `jwt`
/// header.
#[derive(Debug, Clone, PartialEq, Eq)]
pub struct LoginReply {
    pub reply: Reply<User>,
    pub jwt: Option<String>,
}

/// Lists every account.
pub fn get_all_users(db: &Database) -> (r: Reply<Vec<User>>)
    ensures
        r.status == OK,
        r.body matches Body::Json(users) && user_rows(users@) == db@.users,
{
    match User::get_all(db) {
        Ok(results) => Reply::json(OK, results),
        Err(_) => Reply::bare(NOT_FOUND),
    }
}

/// Registers an account. The address and the password are checked first, in
/// that order. Then the password is hashed, and the account is created unless
/// an account holds its address, deleted or not. A failure to hash is an
/// internal error; an identifier that is taken is answered like an address in
/// use.
pub fn register(db: &mut Database, new_user: NewUser) -> (r: Reply<User>)
    ensures
        old(db).wf() ==> final(db).wf(),
        if !is_email(new_user.email@) {
            r.says(BAD_REQUEST, "Not valid email format"@) && final(db)@ == old(db)@
        } else if !is_strong_password(new_user.password@) {
            r.says(BAD_REQUEST, "Password is not strong enough"@) && final(db)@ == old(db)@
        } else {
            ||| r.says(INTERNAL_SERVER_ERROR, StoreError::Internal.text()) && final(db)@ == old(db)@
            ||| r.says(BAD_REQUEST, "User already exists"@) && final(db)@ == old(db)@
            ||| {
                &&& r.status == CREATED
                &&& r.body matches Body::Json(user)
                &&& user.email@ == new_user.email@
                &&& hash_opens(new_user.password@, user.password@)
                &&& !user.is_deleted
                &&& old(db)@.admits_user(user@)
                &&& final(db)@ == old(db)@.plus_user(user@)
            }
        },
        find_last(old(db)@.users, user_with_email(new_user.email@)) is Some ==> r.status
            != CREATED,
        find_last(old(db)@.users, user_with_email(new_user.email@)) is None && no_user_clashes(
            old(db)@.users,
        ) && is_email(new_user.email@) && is_strong_password(new_user.password@) ==> r.status
            != BAD_REQUEST,
{
    if verify_email(new_user.email.clone()) {
        if verify_password(new_user.password.clone()) {
            match NewUser::create(new_user.email.clone(), new_user.password.clone(), db) {
                Ok(user) => Reply::json(CREATED, user),
                Err(StoreError::Internal) => Reply::text(
                    INTERNAL_SERVER_ERROR,
                    StoreError::Internal.describe(),
                ),
                Err(_) => Reply::message(BAD_REQUEST, "User already exists"),
            }
        } else {
            Reply::message(BAD_REQUEST, "Password is not strong enough")
        }
    } else {
        Reply::message(BAD_REQUEST, "Not valid email format")
    }
}

/// Logs a user in. The reply carries the account and, in its `jwt` header,
/// a token issued now.
pub fn login(user_auth: AuthUser, db: &Database, settings: &TokenSettings) -> (r: LoginReply)
    ensures
        match AuthUser::opened(db@.users, user_auth.email@, user_auth.password@) {
            Some(row) => {
                &&& r.reply.status == OK
                &&& r.reply.body matches Body::Json(user) && user@ == row
                &&& r.jwt matches Some(token)
                &&& issued_now(row, settings.secret@, settings.lifetime as int, token@)
            },
            None => r.reply.is_bare(NOT_FOUND) && r.jwt is None,
        },
{
    match AuthUser::authenticate(
        db,
        user_auth.email.as_str(),
        user_auth.password.as_str(),
        settings,
    ) {
        Ok((authenticated, token)) => LoginReply {
            reply: Reply::json(OK, authenticated),
            jwt: Some(token),
        },
        Err(_) => LoginReply { reply: Reply::bare(NOT_FOUND), jwt: None },
    }
}

/// Shows the account that the request names, deleted or not.
pub fn get_user_by_id(id_and_value: IdAndValue, db: &Database) -> (r: Reply<User>)
    ensures
        match find_first(db@.users, user_with_id(id_and_value.id@)) {
            Some(row) => {
                &&& r.status == OK
                &&& r.body matches Body::Json(user)
                &&& user@ == row
            },
            None => r.says(BAD_REQUEST, "User ID does not exist."@),
        },
{
    let id = id_and_value.id;
    let user = match User::get_by_id(db, &id) {
        Ok(result) => result,
        Err(_) => {
            return Reply::message(BAD_REQUEST, "User ID does not exist.");
        },
    };
    Reply::json(OK, user)
}

/// Changes the address of the account that the request names, after
/// checking the form of the new address.
pub fn update_user_email(id_and_value: IdAndValue, db: &mut Database) -> (r: Reply<User>)
    ensures
        old(db).wf() ==> final(db).wf(),
        if !is_email(id_and_value.value@) {
            r.says(BAD_REQUEST, "Not valid email format"@) && final(db)@ == old(db)@
        } else {
            match find_first(old(db)@.users, user_with_id(id_and_value.id@)) {
                Some(row) => {
                    let changed = UserRow { email: id_and_value.value@, ..row };
                    &&& r.status == OK
                    &&& r.body matches Body::Json(user)
                &&& user@ == changed
                    &&& final(db)@ == old(db)@.with_user(
                        first_where(old(db)@.users, user_with_id(id_and_value.id@), 0),
                        changed,
                    )
                },
                None => r.says(BAD_REQUEST, "User ID does not exist."@) && final(db)@ == old(db)@,
            }
        },
{
    let id = id_and_value.id;
    let email = id_and_value.value;
    if verify_email(email.clone()) {
        let user = match User::get_by_id(db, &id) {
            Ok(result) => result,
            Err(_) => {
                return Reply::message(BAD_REQUEST, "User ID does not exist.");
            },
        };
        proof {
            lemma_first_where(db@.users, user_with_id(id@), 0);
        }
        match user.update_email(db, email) {
            Ok(result) => Reply::json(OK, result),
            Err(_) => Reply::message(INTERNAL_SERVER_ERROR, "Invalid email address"),
        }
    } else {
        Reply::message(BAD_REQUEST, "Not valid email format")
    }
}

/// Changes the password of the account that the request names, after
/// checking the strength of the new password. Whichever hash is stored, it
/// is one that matches the new password.
pub fn update_user_password(id_and_value: IdAndValue, db: &mut Database) -> (r: Reply<()>)
    ensures
        old(db).wf() ==> final(db).wf(),
        if !is_strong_password(id_and_value.value@) {
            r.says(BAD_REQUEST, "Password is not strong enough"@) && final(db)@ == old(db)@
        } else {
            match find_first(old(db)@.users, user_with_id(id_and_value.id@)) {
                Some(row) => {
                    ||| r.says(INTERNAL_SERVER_ERROR, "Invalid password"@) && final(db)@ == old(db)@
                    ||| r.says(OK, "Password successfully updated"@) && (exists|hash: Seq<char>|
                        {
                            &&& hash_opens(id_and_value.value@, hash)
                            &&& final(db)@ == old(db)@.with_user(
                                first_where(old(db)@.users, user_with_id(id_and_value.id@), 0),
                                UserRow { password: hash, ..row },
                            )
                        })
                },
                None => r.says(BAD_REQUEST, "User ID does not exist."@) && final(db)@ == old(db)@,
            }
        },
{
    let id = id_and_value.id;
    let password = id_and_value.value;
    if verify_password(password.clone()) {
        let user = match User::get_by_id(db, &id) {
            Ok(result) => result,
            Err(_) => {
                return Reply::message(BAD_REQUEST, "User ID does not exist.");
            },
        };
        proof {
            lemma_first_where(db@.users, user_with_id(id@), 0);
        }
        match user.update_password(db, password) {
            Ok(_) => Reply::message(OK, "Password successfully updated"),
            Err(_) => Reply::message(INTERNAL_SERVER_ERROR, "Invalid password"),
        }
    } else {
        Reply::message(BAD_REQUEST, "Password is not strong enough")
    }
}

/// Creates a portfolio, unless its owner has one of that name that is not
/// deleted. The portfolio gets an identifier of 36 characters that is drawn at
/// random: where no stored identifier has as many, it is created whenever the
/// name allows it.
pub fn create_portfolio(db: &mut Database, portfolio: NewPortfolio) -> (r: Reply<Portfolio>)
    ensures
        old(db).wf() ==> final(db).wf(),
        find_last(old(db)@.portfolios, live_portfolio_named(portfolio.name@, portfolio.user_id@))
            is Some ==> r.status == BAD_REQUEST,
        find_last(old(db)@.portfolios, live_portfolio_named(portfolio.name@, portfolio.user_id@))
            is None && no_portfolio_clashes(old(db)@.portfolios) ==> r.status == CREATED,
        ({
            ||| r.says(BAD_REQUEST, "Portfolio with that name already exists"@) && final(db)@
                == old(db)@
            ||| {
                &&& r.status == CREATED
                &&& r.body matches Body::Json(created)
                &&& created.name@ == portfolio.name@
                &&& created.user_id@ == portfolio.user_id@
                &&& !created.is_deleted
                &&& old(db)@.admits_portfolio(created@)
                &&& final(db)@ == old(db)@.plus_portfolio(created@)
            }
        }),
{
    match NewPortfolio::create(portfolio.name.clone(), portfolio.user_id.clone(), db) {
        Ok(created) => Reply::json(CREATED, created),
        Err(_) => Reply::message(BAD_REQUEST, "Portfolio with that name already exists"),
    }
}

/// Lists the portfolios of the user that the request names, those that are
/// not deleted.
pub fn get_portfolios(db: &Database, id_and_value: IdAndValue) -> (r: Reply<Vec<Portfolio>>)
    ensures
        r.status == OK,
        r.body matches Body::Json(list) && portfolio_rows(list@) == db@.portfolios.filter(
            live_portfolio_of(id_and_value.id@),
        ),
{
    match Portfolio::get_all_from_user(db, &id_and_value.id) {
        Ok(results) => Reply::json(OK, results),
        Err(_) => Reply::message(BAD_REQUEST, "User ID does not exist."),
    }
}

/// Shows the portfolio that the request names, unless it is deleted.
pub fn get_portfolio_by_id(db: &Database, id_and_value: IdAndValue) -> (r: Reply<Portfolio>)
    ensures
        match find_first(db@.portfolios, live_portfolio_with_id(id_and_value.id@)) {
            Some(row) => {
                &&& r.status == OK
                &&& r.body matches Body::Json(p)
                &&& p@ == row
            },
            None => r.says(BAD_REQUEST, "Portfolio with that ID does not exist."@),
        },
{
    let id = id_and_value.id;
    let portfolio = match Portfolio::get_by_id(db, id) {
        Ok(result) => result,
        Err(_) => {
            return Reply::message(BAD_REQUEST, "Portfolio with that ID does not exist.");
        },
    };
    Reply::json(OK, portfolio)
}

/// Renames the portfolio that the request names, unless it is deleted.
pub fn update_portfolio_name(id_and_value: IdAndValue, db: &mut Database) -> (r: Reply<Portfolio>)
    ensures
        old(db).wf() ==> final(db).wf(),
        match find_first(old(db)@.portfolios, live_portfolio_with_id(id_and_value.id@)) {
            Some(row) => {
                let changed = PortfolioRow { name: id_and_value.value@, ..row };
                &&& r.status == OK
                &&& r.body matches Body::Json(p)
                &&& p@ == changed
                &&& final(db)@ == old(db)@.with_portfolio(
                    first_where(old(db)@.portfolios, live_portfolio_with_id(id_and_value.id@), 0),
                    changed,
                )
            },
            None => r.says(BAD_REQUEST, "Portfolio with that ID does not exist."@) && final(db)@
                == old(db)@,
        },
{
    let id = id_and_value.id;
    let name = id_and_value.value;
    let ghost wanted = id@;
    let portfolio = match Portfolio::get_by_id(db, id) {
        Ok(result) => result,
        Err(_) => {
            return Reply::message(BAD_REQUEST, "Portfolio with that ID does not exist.");
        },
    };
    proof {
        lemma_first_where(db@.portfolios, live_portfolio_with_id(wanted), 0);
    }
    match portfolio.update_name(db, name) {
        Ok(result) => Reply::json(OK, result),
        Err(_) => Reply::message(INTERNAL_SERVER_ERROR, "Invalid email address"),
    }
}

/// These tables after portfolio `id` is deleted together with its tickers,
/// where the portfolio exists and is not deleted yet; unchanged otherwise.
pub open spec fn portfolio_dropped(tables: Tables, id: Seq<char>) -> Tables {
    if find_first(tables.portfolios, live_portfolio_with_id(id)) is Some {
        tables.without_portfolio(id).without_tickers_of(id)
    } else {
        tables
    }
}

/// Deletes a portfolio and the tickers in it. The reply shows the portfolio
/// and, of its tickers, those that were not deleted before. A portfolio that
/// is deleted already is not found, and nothing changes.
pub fn delete_portfolio(portfolio_id: String, db: &mut Database) -> (r: Reply<PortfolioAndTickers>)
    ensures
        old(db).wf() ==> final(db).wf(),
        final(db)@ == portfolio_dropped(old(db)@, portfolio_id@),
        match find_first(old(db)@.portfolios, live_portfolio_with_id(portfolio_id@)) {
            Some(row) => {
                &&& r.status == OK
                &&& r.body matches Body::Json(both)
                &&& both.portfolio@ == (PortfolioRow { is_deleted: true, ..row })
                &&& ticker_rows(both.tickers@) == old(db)@.tickers.filter(
                    live_ticker_of(portfolio_id@),
                ).map_values(|t: TickerRow| deleted_with_portfolio(t, portfolio_id@))
            },
            None => r.says(BAD_REQUEST, StoreError::NotFound.text()),
        },
{
    match Portfolio::delete_portfolio(db, &portfolio_id) {
        Ok(portfolio) => match Ticker::delete_tickers(db, &portfolio_id) {
            Ok(tickers) => Reply::json(OK, PortfolioAndTickers { portfolio, tickers }),
            Err(err) => Reply::text(BAD_REQUEST, err.describe()),
        },
        Err(err) => Reply::text(BAD_REQUEST, err.describe()),
    }
}

/// The text that tells that no ticker is known under `symbol`.
pub open spec fn unknown_ticker(symbol: Seq<char>) -> Seq<char> {
    "Ticker '"@ + symbol + "' does not exist."@
}

/// Adds a ticker to a portfolio. `resolves` tells whether the market data
/// provider knows the symbol: a symbol that it does not know is refused
/// before the store is asked. The ticker gets an identifier of 36 characters
/// that is drawn at random: where no stored identifier has as many, a ticker
/// whose symbol resolves is added unless the portfolio has a ticker of that
/// symbol that is not deleted.
pub fn add_ticker(db: &mut Database, ticker: NewTicker, resolves: bool) -> (r: Reply<Ticker>)
    ensures
        old(db).wf() ==> final(db).wf(),
        !resolves ==> r.says(BAD_REQUEST, unknown_ticker(ticker.name@)) && final(db)@ == old(db)@,
        resolves && find_last(
            old(db)@.tickers,
            live_ticker_named(ticker.name@, ticker.portfolio_id@),
        ) is Some ==> r.status == BAD_REQUEST,
        resolves && find_last(
            old(db)@.tickers,
            live_ticker_named(ticker.name@, ticker.portfolio_id@),
        ) is None && no_ticker_clashes(old(db)@.tickers) ==> r.status == CREATED,
        resolves ==> {
            ||| r.says(BAD_REQUEST, "Ticker with that name already exists"@) && final(db)@
                == old(db)@
            ||| {
                &&& r.status == CREATED
                &&& r.body matches Body::Json(created)
                &&& created.name@ == ticker.name@
                &&& created.portfolio_id@ == ticker.portfolio_id@
                &&& !created.is_deleted
                &&& old(db)@.admits_ticker(created@)
                &&& final(db)@ == old(db)@.plus_ticker(created@)
            }
        },
{
    if !resolves {
        let mut text = String::from_str("Ticker '");
        text.append(ticker.name.as_str());
        text.append("' does not exist.");
        return Reply::text(BAD_REQUEST, text);
    }
    match NewTicker::create(ticker.name.clone(), ticker.portfolio_id.clone(), db) {
        Ok(created) => Reply::json(CREATED, created),
        Err(_) => Reply::message(BAD_REQUEST, "Ticker with that name already exists"),
    }
}

/// Deletes a ticker. A ticker that is deleted already is not found.
pub fn delete_ticker(db: &mut Database, ticker_id: String) -> (r: Reply<Ticker>)
    ensures
        old(db).wf() ==> final(db).wf(),
        match find_first(old(db)@.tickers, live_ticker_with_id(ticker_id@)) {
            Some(row) => {
                let changed = TickerRow { is_deleted: true, ..row };
                &&& r.status == OK
                &&& r.body matches Body::Json(t)
                &&& t@ == changed
                &&& final(db)@ == old(db)@.with_ticker(
                    first_where(old(db)@.tickers, live_ticker_with_id(ticker_id@), 0),
                    changed,
                )
            },
            None => r.says(
                BAD_REQUEST,
                "Unable to delete ticker: "@ + StoreError::NotFound.text(),
            ) && final(db)@ == old(db)@,
        },
{
    match Ticker::delete_ticker(db, &ticker_id) {
        Ok(ticker) => Reply::json(OK, ticker),
        Err(err) => {
            let mut text = String::from_str("Unable to delete ticker: ");
            text.append(err.describe().as_str());
            Reply::text(BAD_REQUEST, text)
        },
    }
}

/// These tables after each of the portfolios `ids` is dropped in turn with
/// its tickers: see [`portfolio_dropped`].
pub open spec fn portfolios_dropped(tables: Tables, ids: Seq<Seq<char>>) -> Tables
    decreases ids.len(),
{
    if ids.len() == 0 {
        tables
    } else {
        portfolio_dropped(portfolios_dropped(tables, ids.drop_last()), ids.last())
    }
}

/// The identifiers of the portfolios of user `id` that are not deleted, in
/// the order of their creation.
pub open spec fn owned_portfolios(tables: Tables, id: Seq<char>) -> Seq<Seq<char>> {
    tables.portfolios.filter(live_portfolio_of(id)).map_values(|p: PortfolioRow| p.id)
}

/// These tables after user `id` is deleted, where the account exists and is
/// not deleted yet: the account is marked, and each of its portfolios that is
/// not deleted is dropped with its tickers. Unchanged otherwise.
pub open spec fn user_dropped(tables: Tables, id: Seq<char>) -> Tables {
    let i = first_where(tables.users, live_user_with_id(id), 0);
    if i < tables.users.len() {
        portfolios_dropped(
            tables.with_user(i, UserRow { is_deleted: true, ..tables.users[i] }),
            owned_portfolios(tables, id),
        )
    } else {
        tables
    }
}

/// Among records with distinct identifiers, those that a filter keeps have
/// distinct identifiers too, and each of them is one of the records.
pub proof fn lemma_filter_keeps_portfolios_distinct(
    rows: Seq<PortfolioRow>,
    keep: spec_fn(PortfolioRow) -> bool,
)
    requires
        distinct_portfolios(rows),
    ensures
        distinct_portfolios(rows.filter(keep)),
        forall|j: int|
            0 <= j < rows.filter(keep).len() ==> rows.contains(#[trigger] rows.filter(keep)[j])
                && keep(rows.filter(keep)[j]),
    decreases rows.len(),
{
    reveal(Seq::filter);
    if rows.len() > 0 {
        let front = rows.drop_last();
        lemma_filter_keeps_portfolios_distinct(front, keep);
        let kept = front.filter(keep);
        assert forall|j: int| 0 <= j < kept.len() implies rows.contains(#[trigger] kept[j])
            && kept[j].id != rows.last().id by {
            let i = choose|i: int| 0 <= i < front.len() && front[i] == kept[j];
            assert(rows[i] == kept[j]);
        }
        if keep(rows.last()) {
            assert(rows[rows.len() - 1] == rows.last());
        }
    }
}

/// Deletes an account and all that it owns: the account is marked as
/// deleted, then each of its portfolios that is not deleted is dropped with
/// its tickers. An account that is deleted already is not found, and nothing
/// changes.
pub fn delete_user(id: String, db: &mut Database) -> (r: Reply<()>)
    requires
        old(db).wf(),
    ensures
        final(db).wf(),
        final(db)@ == user_dropped(old(db)@, id@),
        match find_first(old(db)@.users, live_user_with_id(id@)) {
            Some(_) => r.says(OK, "User successfully deleted"@),
            None => r.is_bare(BAD_REQUEST),
        },
{
    let portfolios = match Portfolio::get_all_from_user(db, &id) {
        Ok(result) => result,
        Err(err) => {
            return Reply::text(UPSTREAM_FAILED, err.describe());
        },
    };
    let ghost listed = portfolio_rows(portfolios@);
    let ghost ids = owned_portfolios(old(db)@, id@);
    proof {
        lemma_first_where(db@.users, live_user_with_id(id@), 0);
        lemma_filter_keeps_portfolios_distinct(db@.portfolios, live_portfolio_of(id@));
    }
    match User::delete_user(db, &id) {
        Ok(_) => {
            let ghost start = db@;
            let n = portfolios.len();
            let mut k: usize = 0;
            proof {
                assert(ids.take(0) =~= Seq::<Seq<char>>::empty());
                assert forall|j: int| 0 <= j < n implies any_where(
                    db@.portfolios,
                    live_portfolio_with_id(#[trigger] ids[j]),
                ) by {
                    let row = listed[j];
                    let i = choose|i: int|
                        0 <= i < db@.portfolios.len() && db@.portfolios[i] == row;
                    assert(live_portfolio_with_id(ids[j])(db@.portfolios[i]));
                }
            }
            while k < n
                invariant
                    n == portfolios@.len(),
                    k <= n,
                    listed == portfolio_rows(portfolios@),
                    ids == listed.map_values(|p: PortfolioRow| p.id),
                    distinct_portfolios(listed),
                    db.wf(),
                    db@ == portfolios_dropped(start, ids.take(k as int)),
                    forall|j: int|
                        k <= j < n ==> any_where(
                            db@.portfolios,
                            live_portfolio_with_id(#[trigger] ids[j]),
                        ),
                decreases n - k,
            {
                let ghost before = db@;
                let ghost wanted = live_portfolio_with_id(ids[k as int]);
                proof {
                    lemma_find_first_any(before.portfolios, wanted);
                    lemma_first_where(before.portfolios, wanted, 0);
                    assert(ids.take(k + 1).drop_last() =~= ids.take(k as int));
                    assert(ids.take(k + 1).last() == ids[k as int]);
                    assert(portfolios@[k as int].id@ == ids[k as int]);
                }
                match Portfolio::delete_portfolio(db, &portfolios[k].id) {
                    Ok(portfolio) => {
                        proof {
                            let at = first_where(before.portfolios, wanted, 0);
                            assert(db@.portfolios == before.portfolios.update(
                                at,
                                PortfolioRow { is_deleted: true, ..before.portfolios[at] },
                            ));
                            assert forall|j: int| k < j < n implies any_where(
                                db@.portfolios,
                                live_portfolio_with_id(#[trigger] ids[j]),
                            ) by {
                                let other = live_portfolio_with_id(ids[j]);
                                assert(any_where(before.portfolios, other));
                                let i = choose|i: int|
                                    0 <= i < before.portfolios.len() && other(
                                        #[trigger] before.portfolios[i],
                                    );
                                assert(listed[k as int].id != listed[j].id);
                                assert(i != at);
                                assert(other(db@.portfolios[i]));
                            }
                        }
                        match Ticker::delete_tickers(db, &portfolio.id) {
                            Ok(_) => (),
                            Err(err) => {
                                return Reply::text(BAD_REQUEST, err.describe());
                            },
                        }
                    },
                    Err(err) => {
                        return Reply::text(BAD_REQUEST, err.describe());
                    },
                }
                k += 1;
            }
            proof {
                assert(ids.take(n as int) =~= ids);
            }
            Reply::message(OK, "User successfully deleted")
        },
        Err(_) => Reply::bare(BAD_REQUEST),
    }
}

/// Dropping a portfolio twice is dropping it once: after the first time it
/// is no longer found among the portfolios that are not deleted, so the second
/// request is rejected and changes nothing.
pub proof fn lemma_portfolio_dropped_once(tables: Tables, id: Seq<char>)
    requires
        tables.wf(),
    ensures
        find_first(portfolio_dropped(tables, id).portfolios, live_portfolio_with_id(id)) is None,
        portfolio_dropped(portfolio_dropped(tables, id), id) == portfolio_dropped(tables, id),
{
    lemma_portfolio_deleted_once(tables, id);
}

/// A portfolio that is deleted already, or that does not exist, is not found
/// when it is to be dropped, and nothing changes: neither the portfolio nor
/// any ticker, whether or not tickers of it are left that are not deleted.
pub proof fn lemma_deleted_portfolio_stays(tables: Tables, id: Seq<char>)
    requires
        forall|i: int|
            0 <= i < tables.portfolios.len() && (#[trigger] tables.portfolios[i]).id == id
                ==> tables.portfolios[i].is_deleted,
    ensures
        find_first(tables.portfolios, live_portfolio_with_id(id)) is None,
        portfolio_dropped(tables, id) == tables,
{
    lemma_first_where(tables.portfolios, live_portfolio_with_id(id), 0);
}

/// `row`, marked as deleted.
pub open spec fn deleted_portfolio(row: PortfolioRow) -> PortfolioRow {
    PortfolioRow { is_deleted: true, ..row }
}

/// `row`, marked as deleted.
pub open spec fn deleted_ticker(row: TickerRow) -> TickerRow {
    TickerRow { is_deleted: true, ..row }
}

/// What dropping several portfolios comes to, where they are distinct and
/// none is deleted yet: exactly these portfolios are marked, and exactly the
/// tickers that belong to one of them.
pub proof fn lemma_portfolios_dropped(start: Tables, ids: Seq<Seq<char>>)
    requires
        distinct_portfolios(start.portfolios),
        ids.no_duplicates(),
        forall|m: int|
            0 <= m < ids.len() ==> any_where(
                start.portfolios,
                live_portfolio_with_id(#[trigger] ids[m]),
            ),
    ensures
        ({
            let after = portfolios_dropped(start, ids);
            &&& after.users == start.users
            &&& after.portfolios.len() == start.portfolios.len()
            &&& after.tickers.len() == start.tickers.len()
            &&& forall|j: int|
                0 <= j < start.portfolios.len() ==> #[trigger] after.portfolios[j]
                    == if ids.contains(start.portfolios[j].id) {
                    deleted_portfolio(start.portfolios[j])
                } else {
                    start.portfolios[j]
                }
            &&& forall|j: int|
                0 <= j < start.tickers.len() ==> #[trigger] after.tickers[j] == if ids.contains(
                    start.tickers[j].portfolio_id,
                ) {
                    deleted_ticker(start.tickers[j])
                } else {
                    start.tickers[j]
                }
        }),
    decreases ids.len(),
{
    if ids.len() > 0 {
        let front = ids.drop_last();
        let last = ids.last();
        assert(ids =~= front.push(last));
        assert forall|m: int| 0 <= m < front.len() implies any_where(
            start.portfolios,
            live_portfolio_with_id(#[trigger] front[m]),
        ) by {
            assert(front[m] == ids[m]);
        }
        assert(!front.contains(last)) by {
            if front.contains(last) {
                let m = choose|m: int| 0 <= m < front.len() && front[m] == last;
                assert(ids[m] == ids[ids.len() - 1]);
            }
        }
        lemma_portfolios_dropped(start, front);
        let mid = portfolios_dropped(start, front);
        let wanted = live_portfolio_with_id(last);
        assert(any_where(start.portfolios, live_portfolio_with_id(ids[ids.len() - 1])));
        let i = choose|i: int|
            0 <= i < start.portfolios.len() && wanted(#[trigger] start.portfolios[i]);
        assert(mid.portfolios[i] == start.portfolios[i]);
        assert(wanted(mid.portfolios[i]));
        lemma_first_where(mid.portfolios, wanted, 0);
        let at = first_where(mid.portfolios, wanted, 0);
        assert(at == i) by {
            if at != i {
                assert(mid.portfolios[at].id == start.portfolios[at].id);
                assert(start.portfolios[at].id == start.portfolios[i].id);
            }
        }
        let after = portfolios_dropped(start, ids);
        assert(after == mid.without_portfolio(last).without_tickers_of(last));
        assert forall|x: Seq<char>| ids.contains(x) <==> (front.contains(x) || x == last) by {
            if front.contains(x) {
                let m = choose|m: int| 0 <= m < front.len() && front[m] == x;
                assert(ids[m] == x);
            }
            if x == last {
                assert(ids[ids.len() - 1] == x);
            }
            if ids.contains(x) {
                let m = choose|m: int| 0 <= m < ids.len() && ids[m] == x;
                if m < front.len() {
                    assert(front[m] == x);
                }
            }
        }
        assert forall|j: int| 0 <= j < start.portfolios.len() implies #[trigger] after.portfolios[j]
            == if ids.contains(start.portfolios[j].id) {
            deleted_portfolio(start.portfolios[j])
        } else {
            start.portfolios[j]
        } by {
            assert(mid.portfolios[j] == if front.contains(start.portfolios[j].id) {
                deleted_portfolio(start.portfolios[j])
            } else {
                start.portfolios[j]
            });
            if j != i {
                assert(start.portfolios[j].id != start.portfolios[i].id);
            }
        }
        assert forall|j: int| 0 <= j < start.tickers.len() implies #[trigger] after.tickers[j]
            == if ids.contains(start.tickers[j].portfolio_id) {
            deleted_ticker(start.tickers[j])
        } else {
            start.tickers[j]
        } by {
            assert(mid.tickers[j] == if front.contains(start.tickers[j].portfolio_id) {
                deleted_ticker(start.tickers[j])
            } else {
                start.tickers[j]
            });
            assert(after.tickers[j] == deleted_with_portfolio(mid.tickers[j], last));
        }
    }
}

/// Whether user `user` has a portfolio `portfolio_id` that is not deleted.
pub open spec fn owns(
    portfolios: Seq<PortfolioRow>,
    user: Seq<char>,
    portfolio_id: Seq<char>,
) -> bool {
    exists|i: int|
        0 <= i < portfolios.len() && (#[trigger] portfolios[i]).id == portfolio_id
            && portfolios[i].user_id == user && !portfolios[i].is_deleted
}

/// What deleting an account comes to: the account is marked as deleted,
/// every portfolio of the user is marked, and so is every ticker in a
/// portfolio of the user that was not deleted before. Nothing else changes.
pub proof fn lemma_user_dropped(tables: Tables, id: Seq<char>)
    requires
        tables.wf(),
        find_first(tables.users, live_user_with_id(id)) is Some,
    ensures
        ({
            let after = user_dropped(tables, id);
            let at = first_where(tables.users, live_user_with_id(id), 0);
            &&& after.users == tables.users.update(
                at,
                UserRow { is_deleted: true, ..tables.users[at] },
            )
            &&& after.portfolios == tables.portfolios.map_values(
                |p: PortfolioRow|
                    if p.user_id == id {
                        deleted_portfolio(p)
                    } else {
                        p
                    },
            )
            &&& after.tickers == tables.tickers.map_values(
                |t: TickerRow|
                    if owns(tables.portfolios, id, t.portfolio_id) {
                        deleted_ticker(t)
                    } else {
                        t
                    },
            )
        }),
{
    let at = first_where(tables.users, live_user_with_id(id), 0);
    let start = tables.with_user(at, UserRow { is_deleted: true, ..tables.users[at] });
    let keep = live_portfolio_of(id);
    let owned = tables.portfolios.filter(keep);
    let ids = owned_portfolios(tables, id);
    lemma_filter_keeps_portfolios_distinct(tables.portfolios, keep);
    assert(ids.no_duplicates()) by {
        assert forall|a: int, b: int|
            0 <= a < ids.len() && 0 <= b < ids.len() && a != b implies ids[a] != ids[b] by {
            if a < b {
                assert(owned[a].id != owned[b].id);
            } else {
                assert(owned[b].id != owned[a].id);
            }
        }
    }
    assert forall|m: int| 0 <= m < ids.len() implies any_where(
        start.portfolios,
        live_portfolio_with_id(#[trigger] ids[m]),
    ) by {
        let row = owned[m];
        assert(tables.portfolios.contains(row) && keep(row));
        let i = choose|i: int| 0 <= i < tables.portfolios.len() && tables.portfolios[i] == row;
        assert(live_portfolio_with_id(ids[m])(start.portfolios[i]));
    }
    lemma_portfolios_dropped(start, ids);
    let after = user_dropped(tables, id);
    assert forall|x: Seq<char>| ids.contains(x) <==> owns(tables.portfolios, id, x) by {
        if ids.contains(x) {
            let m = choose|m: int| 0 <= m < ids.len() && ids[m] == x;
            let row = owned[m];
            assert(tables.portfolios.contains(row) && keep(row));
            let i = choose|i: int| 0 <= i < tables.portfolios.len() && tables.portfolios[i] == row;
            assert(tables.portfolios[i].id == x);
        }
        if owns(tables.portfolios, id, x) {
            let i = choose|i: int|
                0 <= i < tables.portfolios.len() && (#[trigger] tables.portfolios[i]).id == x
                    && tables.portfolios[i].user_id == id && !tables.portfolios[i].is_deleted;
            tables.portfolios.lemma_filter_contains(keep, i);
            let m = choose|m: int| 0 <= m < owned.len() && owned[m] == tables.portfolios[i];
            assert(ids[m] == x);
        }
    }
    assert forall|j: int| 0 <= j < tables.portfolios.len() implies #[trigger] after.portfolios[j]
        == if tables.portfolios[j].user_id == id {
        deleted_portfolio(tables.portfolios[j])
    } else {
        tables.portfolios[j]
    } by {
        let p = tables.portfolios[j];
        if ids.contains(p.id) {
            let i = choose|i: int|
                0 <= i < tables.portfolios.len() && (#[trigger] tables.portfolios[i]).id == p.id
                    && tables.portfolios[i].user_id == id && !tables.portfolios[i].is_deleted;
            if i < j {
                assert(tables.portfolios[i].id != tables.portfolios[j].id);
            } else if j < i {
                assert(tables.portfolios[j].id != tables.portfolios[i].id);
            }
        } else if p.user_id == id {
            assert(p.is_deleted);
        }
    }
    assert(after.portfolios =~= tables.portfolios.map_values(
        |p: PortfolioRow|
            if p.user_id == id {
                deleted_portfolio(p)
            } else {
                p
            },
    ));
    assert(after.tickers =~= tables.tickers.map_values(
        |t: TickerRow|
            if owns(tables.portfolios, id, t.portfolio_id) {
                deleted_ticker(t)
            } else {
                t
            },
    ));
}

} // verus!
