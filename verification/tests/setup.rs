use portfolio_tracker::calendar::CalendarDate;
use portfolio_tracker::infrastructure::reply::{Body, Reply};
use portfolio_tracker::infrastructure::setup::{
    add_ticker, create_portfolio, delete_portfolio, delete_ticker, delete_user, get_all_users,
    get_portfolio_by_id, get_portfolios, get_user_by_id, login, register, update_portfolio_name,
    update_user_email, update_user_password, IdAndValue, PortfolioAndTickers,
};
use portfolio_tracker::models::authentication::{verify, AuthUser, TokenSettings};
use portfolio_tracker::models::portfolio::{NewPortfolio, Portfolio};
use portfolio_tracker::models::ticker::{NewTicker, Ticker};
use portfolio_tracker::models::user::{NewUser, User};
use portfolio_tracker::schema::Database;

fn user(id: &str, email: &str, deleted: bool) -> User {
    User {
        id: String::from(id),
        email: String::from(email),
        password: String::from("hash"),
        is_deleted: deleted,
    }
}

fn portfolio(id: &str, name: &str, owner: &str, deleted: bool) -> Portfolio {
    Portfolio {
        id: String::from(id),
        name: String::from(name),
        created_at: CalendarDate { year: 2022, month: 1, day: 1 },
        is_deleted: deleted,
        user_id: String::from(owner),
    }
}

fn ticker(id: &str, name: &str, holder: &str, deleted: bool) -> Ticker {
    Ticker {
        id: String::from(id),
        name: String::from(name),
        portfolio_id: String::from(holder),
        is_deleted: deleted,
    }
}

fn sample() -> Database {
    Database {
        users: vec![user("u1", "ann@mail.com", false), user("u2", "bob@mail.com", false)],
        portfolios: vec![
            portfolio("folio-1", "growth", "u1", false),
            portfolio("folio-2", "income", "u2", false),
            portfolio("folio-3", "old", "u1", true),
            portfolio("folio-4", "income", "u1", false),
        ],
        tickers: vec![
            ticker("t1", "AAPL", "folio-1", false),
            ticker("t2", "MSFT", "folio-2", false),
            ticker("t3", "IBM", "folio-3", false),
            ticker("t4", "TSLA", "folio-4", false),
            ticker("t5", "AMZN", "folio-1", true),
            ticker("t6", "NFLX", "folio-4", false),
        ],
    }
}

fn named(id: &str, value: &str) -> IdAndValue {
    IdAndValue { id: String::from(id), value: String::from(value) }
}

fn text<T>(status: u16, text: &str) -> Reply<T> {
    Reply { status, body: Body::Text(String::from(text)) }
}

fn json<T>(status: u16, value: T) -> Reply<T> {
    Reply { status, body: Body::Json(value) }
}

fn settings() -> TokenSettings {
    TokenSettings { secret: String::from("secret"), lifetime: 300 }
}

#[test]
fn replies_are_built_from_status_and_body() {
    assert_eq!(Reply::json(200, 7), Reply { status: 200, body: Body::Json(7) });
    assert_eq!(Reply::<u8>::message(400, "no"), text(400, "no"));
    assert_eq!(Reply::<u8>::text(500, String::from("bad")), text(500, "bad"));
    assert_eq!(Reply::<u8>::bare(404), Reply { status: 404, body: Body::Empty });
}

#[test]
fn all_users_are_listed() {
    assert_eq!(get_all_users(&sample()), json(200, sample().users));
    assert_eq!(get_all_users(&Database::new()), json(200, vec![]));
}

#[test]
fn register_checks_the_address_first() {
    let mut db = Database::new();
    let new_user = NewUser { email: String::from("Ann@mail.com"), password: String::from("weak") };
    assert_eq!(register(&mut db, new_user), text(400, "Not valid email format"));
    assert!(db.users.is_empty());
}

#[test]
fn register_checks_the_password_second() {
    let mut db = Database::new();
    let new_user = NewUser { email: String::from("ann@mail.com"), password: String::from("password1!") };
    assert_eq!(register(&mut db, new_user), text(400, "Password is not strong enough"));
    assert!(db.users.is_empty());
}

#[test]
fn register_creates_an_account_once() {
    let mut db = Database::new();
    let new_user = NewUser { email: String::from("ann@mail.com"), password: String::from("pA5!ssword12") };
    let reply = register(&mut db, new_user.clone());
    assert_eq!(reply.status, 201);
    assert_eq!(reply.body, Body::Json(db.users[0].clone()));
    assert_eq!(db.users[0].email, "ann@mail.com");
    assert!(pwhash::bcrypt::verify("pA5!ssword12", &db.users[0].password));
    assert_eq!(register(&mut db, new_user), text(400, "User already exists"));
    assert_eq!(db.users.len(), 1);
}

#[test]
fn register_refuses_the_address_of_a_deleted_account() {
    let mut db = Database::new();
    let new_user = NewUser { email: String::from("ann@mail.com"), password: String::from("pA5!ssword12") };
    assert_eq!(register(&mut db, new_user.clone()).status, 201);
    let id = db.users[0].id.clone();
    assert_eq!(delete_user(id, &mut db).status, 200);
    let before = db.users.clone();
    assert_eq!(register(&mut db, new_user), text(400, "User already exists"));
    assert_eq!(db.users, before);
}

#[test]
fn login_returns_the_account_and_a_token() {
    let mut db = Database::new();
    register(
        &mut db,
        NewUser { email: String::from("ann@mail.com"), password: String::from("pA5!ssword12") },
    );
    let reply = login(
        AuthUser { email: String::from("ann@mail.com"), password: String::from("pA5!ssword12") },
        &db,
        &settings(),
    );
    assert_eq!(reply.reply, json(200, db.users[0].clone()));
    let named = verify(reply.jwt.unwrap(), &settings()).unwrap();
    assert_eq!(named.id, db.users[0].id);
}

#[test]
fn login_with_bad_credentials_is_not_found() {
    let mut db = Database::new();
    register(
        &mut db,
        NewUser { email: String::from("ann@mail.com"), password: String::from("pA5!ssword12") },
    );
    let reply = login(
        AuthUser { email: String::from("ann@mail.com"), password: String::from("pA5!ssword13") },
        &db,
        &settings(),
    );
    assert_eq!(reply.reply, Reply { status: 404, body: Body::Empty });
    assert_eq!(reply.jwt, None);
}

#[test]
fn user_is_shown_by_id() {
    let db = sample();
    assert_eq!(get_user_by_id(named("u2", ""), &db), json(200, user("u2", "bob@mail.com", false)));
    assert_eq!(get_user_by_id(named("u9", ""), &db), text(400, "User ID does not exist."));
}

#[test]
fn email_is_updated_after_the_format_check() {
    let mut db = sample();
    assert_eq!(update_user_email(named("u1", "no address"), &mut db), text(400, "Not valid email format"));
    assert_eq!(update_user_email(named("u9", "new@mail.com"), &mut db), text(400, "User ID does not exist."));
    assert_eq!(db.users, sample().users);
    assert_eq!(
        update_user_email(named("u1", "new@mail.com"), &mut db),
        json(200, user("u1", "new@mail.com", false))
    );
    assert_eq!(db.users[0].email, "new@mail.com");
    assert_eq!(db.users[1], sample().users[1]);
}

#[test]
fn password_is_updated_after_the_strength_check() {
    let mut db = sample();
    assert_eq!(update_user_password(named("u1", "weak"), &mut db), text(400, "Password is not strong enough"));
    assert_eq!(
        update_user_password(named("u9", "pA5!ssword12"), &mut db),
        text(400, "User ID does not exist.")
    );
    assert_eq!(db.users, sample().users);
    assert_eq!(
        update_user_password(named("u1", "pA5!ssword12"), &mut db),
        text(200, "Password successfully updated")
    );
    assert!(pwhash::bcrypt::verify("pA5!ssword12", &db.users[0].password));
}

#[test]
fn deleting_a_user_deletes_portfolios_and_tickers() {
    let mut db = sample();
    assert_eq!(delete_user(String::from("u1"), &mut db), text(200, "User successfully deleted"));
    let mut expected = sample();
    expected.users[0].is_deleted = true;
    expected.portfolios[0].is_deleted = true;
    expected.portfolios[3].is_deleted = true;
    for i in [0, 3, 4, 5] {
        expected.tickers[i].is_deleted = true;
    }
    assert_eq!(db, expected_as(&expected));
    assert!(db.is_consistent());
    // What another user owns stays, and so does what hung under a portfolio deleted before.
    assert!(!db.portfolios[1].is_deleted && !db.tickers[1].is_deleted && !db.tickers[2].is_deleted);
}

fn expected_as(db: &Database) -> Database {
    Database { users: db.users.clone(), portfolios: db.portfolios.clone(), tickers: db.tickers.clone() }
}

#[test]
fn deleting_a_user_twice_is_rejected() {
    let mut db = sample();
    delete_user(String::from("u1"), &mut db);
    let after = expected_as(&db);
    assert_eq!(delete_user(String::from("u1"), &mut db), Reply { status: 400, body: Body::Empty });
    assert_eq!(delete_user(String::from("u9"), &mut db), Reply { status: 400, body: Body::Empty });
    assert_eq!(db, after);
}

#[test]
fn deleting_a_user_without_portfolios() {
    let mut db = sample();
    db.users.push(user("u3", "eve@mail.com", false));
    assert_eq!(delete_user(String::from("u3"), &mut db), text(200, "User successfully deleted"));
    assert!(db.users[2].is_deleted);
    assert_eq!(db.portfolios, sample().portfolios);
    assert_eq!(db.tickers, sample().tickers);
}

#[test]
fn creating_two_portfolios_of_one_name() {
    let mut db = Database::new();
    let wanted = NewPortfolio { name: String::from("growth"), user_id: String::from("u1") };
    let first = create_portfolio(&mut db, wanted.clone());
    assert_eq!(first.status, 201);
    assert_eq!(first.body, Body::Json(db.portfolios[0].clone()));
    assert_eq!(
        create_portfolio(&mut db, wanted),
        text(400, "Portfolio with that name already exists")
    );
    assert_eq!(db.portfolios.len(), 1);
}

#[test]
fn portfolios_of_a_user_are_listed() {
    let db = sample();
    assert_eq!(
        get_portfolios(&db, named("u1", "")),
        json(200, vec![portfolio("folio-1", "growth", "u1", false), portfolio("folio-4", "income", "u1", false)])
    );
    assert_eq!(get_portfolios(&db, named("u9", "")), json(200, vec![]));
}

#[test]
fn portfolio_is_shown_by_id() {
    let db = sample();
    assert_eq!(get_portfolio_by_id(&db, named("folio-2", "")), json(200, portfolio("folio-2", "income", "u2", false)));
    assert_eq!(
        get_portfolio_by_id(&db, named("folio-3", "")),
        text(400, "Portfolio with that ID does not exist.")
    );
}

#[test]
fn portfolio_is_renamed() {
    let mut db = sample();
    assert_eq!(
        update_portfolio_name(named("folio-1", "value"), &mut db),
        json(200, portfolio("folio-1", "value", "u1", false))
    );
    assert_eq!(db.portfolios[0].name, "value");
    assert_eq!(
        update_portfolio_name(named("folio-3", "value"), &mut db),
        text(400, "Portfolio with that ID does not exist.")
    );
    assert_eq!(db.portfolios[2], sample().portfolios[2]);
}

#[test]
fn deleting_a_portfolio_deletes_its_tickers() {
    let mut db = sample();
    assert_eq!(
        delete_portfolio(String::from("folio-4"), &mut db),
        json(
            200,
            PortfolioAndTickers {
                portfolio: portfolio("folio-4", "income", "u1", true),
                tickers: vec![ticker("t4", "TSLA", "folio-4", true), ticker("t6", "NFLX", "folio-4", true)],
            }
        )
    );
    let mut expected = sample();
    expected.portfolios[3].is_deleted = true;
    expected.tickers[3].is_deleted = true;
    expected.tickers[5].is_deleted = true;
    assert_eq!(db, expected);
}

#[test]
fn deleting_a_deleted_portfolio_is_rejected_and_changes_nothing() {
    let mut db = sample();
    // A ticker that is still live under a portfolio deleted before: no second cascade reaches it.
    assert_eq!(delete_portfolio(String::from("folio-3"), &mut db), text(400, "NotFound"));
    assert_eq!(db, sample());
    delete_portfolio(String::from("folio-1"), &mut db);
    let after = expected_as(&db);
    assert_eq!(delete_portfolio(String::from("folio-1"), &mut db), text(400, "NotFound"));
    assert_eq!(delete_portfolio(String::from("folio-9"), &mut db), text(400, "NotFound"));
    assert_eq!(db, after);
}

#[test]
fn ticker_needs_a_symbol_that_the_provider_knows() {
    let mut db = sample();
    let wanted = NewTicker { name: String::from("NOPE"), portfolio_id: String::from("folio-1") };
    assert_eq!(add_ticker(&mut db, wanted, false), text(400, "Ticker 'NOPE' does not exist."));
    assert_eq!(db, sample());
}

#[test]
fn ticker_is_added_once() {
    let mut db = sample();
    let wanted = NewTicker { name: String::from("GOOG"), portfolio_id: String::from("folio-1") };
    let reply = add_ticker(&mut db, wanted.clone(), true);
    assert_eq!(reply.status, 201);
    assert_eq!(reply.body, Body::Json(db.tickers[6].clone()));
    assert_eq!((db.tickers[6].name.as_str(), db.tickers[6].portfolio_id.as_str()), ("GOOG", "folio-1"));
    assert_eq!(add_ticker(&mut db, wanted, true), text(400, "Ticker with that name already exists"));
    assert_eq!(db.tickers.len(), 7);
    // The symbol of a deleted ticker is free.
    let again = NewTicker { name: String::from("AMZN"), portfolio_id: String::from("folio-1") };
    assert_eq!(add_ticker(&mut db, again, true).status, 201);
}

#[test]
fn ticker_is_deleted_once() {
    let mut db = sample();
    assert_eq!(delete_ticker(&mut db, String::from("t2")), json(200, ticker("t2", "MSFT", "folio-2", true)));
    assert!(db.tickers[1].is_deleted);
    assert_eq!(
        delete_ticker(&mut db, String::from("t2")),
        text(400, "Unable to delete ticker: NotFound")
    );
    assert_eq!(
        delete_ticker(&mut db, String::from("t9")),
        text(400, "Unable to delete ticker: NotFound")
    );
}
