use portfolio_tracker::calendar::CalendarDate;
use portfolio_tracker::error::StoreError;
use portfolio_tracker::models::portfolio::{NewPortfolio, Portfolio};
use portfolio_tracker::models::ticker::{NewTicker, Ticker};
use portfolio_tracker::models::user::{NewUser, User};
use portfolio_tracker::schema::Database;

fn user(id: &str, email: &str, deleted: bool) -> User {
    User {
        id: String::from(id),
        email: String::from(email),
        password: String::from("hash"),
        is_deleted: deleted,
    }
}

fn day() -> CalendarDate {
    CalendarDate { year: 2022, month: 1, day: 1 }
}

fn portfolio(id: &str, name: &str, owner: &str, deleted: bool) -> Portfolio {
    Portfolio {
        id: String::from(id),
        name: String::from(name),
        created_at: day(),
        is_deleted: deleted,
        user_id: String::from(owner),
    }
}

fn ticker(id: &str, name: &str, holder: &str, deleted: bool) -> Ticker {
    Ticker {
        id: String::from(id),
        name: String::from(name),
        portfolio_id: String::from(holder),
        is_deleted: deleted,
    }
}

fn sample() -> Database {
    Database {
        users: vec![
            user("u1", "ann@mail.com", false),
            user("u2", "bob@mail.com", true),
            user("u3", "bob@mail.com", false),
            user("u4", "bob@mail.com", false),
        ],
        portfolios: vec![
            portfolio("folio-1", "growth", "u1", false),
            portfolio("folio-2", "income", "u1", true),
            portfolio("folio-3", "growth", "u3", false),
            portfolio("folio-4", "income", "u1", false),
            portfolio("folio-5", "income", "u1", false),
        ],
        tickers: vec![
            ticker("t1", "AAPL", "folio-1", false),
            ticker("t2", "MSFT", "folio-1", true),
            ticker("t3", "AAPL", "folio-3", false),
            ticker("t4", "TSLA", "folio-1", false),
            ticker("t5", "AAPL", "folio-1", false),
        ],
    }
}

#[test]
fn a_new_store_is_empty_and_consistent() {
    let db = Database::new();
    assert!(db.users.is_empty() && db.portfolios.is_empty() && db.tickers.is_empty());
    assert!(db.is_consistent());
}

#[test]
fn consistency_means_distinct_identifiers() {
    let mut db = sample();
    assert!(db.is_consistent());
    db.tickers.push(ticker("t3", "IBM", "folio-4", false));
    assert!(!db.is_consistent());
    let mut db = sample();
    db.users.push(user("u1", "x@mail.com", true));
    assert!(!db.is_consistent());
    let mut db = sample();
    db.portfolios.insert(0, portfolio("folio-5", "x", "u9", false));
    assert!(!db.is_consistent());
}

#[test]
fn new_records_have_fresh_identifiers_of_36_characters() {
    let a = User::new(String::from("a@mail.com"), String::from("h"));
    let b = User::new(String::from("a@mail.com"), String::from("h"));
    assert_eq!(a.id.chars().count(), 36);
    assert_ne!(a.id, b.id);
    assert_eq!((a.email.as_str(), a.password.as_str(), a.is_deleted), ("a@mail.com", "h", false));
    let p = Portfolio::new(String::from("growth"), String::from("u1"));
    assert_eq!(p.id.chars().count(), 36);
    assert_eq!((p.name.as_str(), p.user_id.as_str(), p.is_deleted), ("growth", "u1", false));
    assert!(1 <= p.created_at.month && p.created_at.month <= 12);
    assert!(1 <= p.created_at.day && p.created_at.day <= 31);
    assert!(p.created_at.year >= 2024);
    let t = Ticker::new(String::from("AAPL"), String::from("folio-1"));
    assert_eq!(t.id.chars().count(), 36);
    assert_eq!((t.name.as_str(), t.portfolio_id.as_str(), t.is_deleted), ("AAPL", "folio-1", false));
}

#[test]
fn duplicate_copies_every_field() {
    let u = user("u1", "ann@mail.com", true);
    assert_eq!(u.duplicate(), u);
    let p = portfolio("folio-1", "growth", "u1", true);
    assert_eq!(p.duplicate(), p);
    let t = ticker("t1", "AAPL", "folio-1", true);
    assert_eq!(t.duplicate(), t);
}

#[test]
fn users_are_listed_with_the_deleted_ones() {
    let db = sample();
    assert_eq!(User::get_all(&db), Ok(sample().users));
}

#[test]
fn user_by_id_ignores_the_flag() {
    let db = sample();
    assert_eq!(User::get_by_id(&db, &String::from("u2")), Ok(user("u2", "bob@mail.com", true)));
    assert_eq!(User::get_by_id(&db, &String::from("u9")), Err(StoreError::NotFound));
}

#[test]
fn user_by_email_is_the_last_one_not_deleted() {
    let mut db = sample();
    let bob = String::from("bob@mail.com");
    assert_eq!(User::get_by_email(&db, &bob), Ok(user("u4", "bob@mail.com", false)));
    db.users[3].is_deleted = true;
    assert_eq!(User::get_by_email(&db, &bob), Ok(user("u3", "bob@mail.com", false)));
    db.users[2].is_deleted = true;
    assert_eq!(User::get_by_email(&db, &bob), Err(StoreError::NotFound));
    assert_eq!(User::get_by_email(&db, &String::from("eve@mail.com")), Err(StoreError::NotFound));
}

#[test]
fn update_email_changes_one_record() {
    let mut db = sample();
    let changed = user("u2", "any", false).update_email(&mut db, String::from("rob@mail.com"));
    assert_eq!(changed, Ok(user("u2", "rob@mail.com", true)));
    let mut expected = sample();
    expected.users[1].email = String::from("rob@mail.com");
    assert_eq!(db.users, expected.users);
    assert_eq!(
        user("u9", "any", false).update_email(&mut db, String::from("x@mail.com")),
        Err(StoreError::NotFound)
    );
    assert_eq!(db.users, expected.users);
}

#[test]
fn store_password_replaces_the_hash() {
    let mut db = sample();
    assert_eq!(user("u1", "", false).store_password(&mut db, String::from("new")), Ok(()));
    let mut expected = sample();
    expected.users[0].password = String::from("new");
    assert_eq!(db.users, expected.users);
    assert_eq!(
        user("u9", "", false).store_password(&mut db, String::from("new")),
        Err(StoreError::NotFound)
    );
}

#[test]
fn update_password_stores_a_hash_that_matches() {
    let mut db = sample();
    assert_eq!(user("u1", "", false).update_password(&mut db, String::from("pA5!ssword12")), Ok(()));
    let stored = db.users[0].password.clone();
    assert_ne!(stored, "pA5!ssword12");
    assert!(pwhash::bcrypt::verify("pA5!ssword12", &stored));
    assert!(!pwhash::bcrypt::verify("pA5!ssword13", &stored));
    assert_eq!(db.users[1..], sample().users[1..]);
    assert_eq!(
        user("u9", "", false).update_password(&mut db, String::from("pA5!ssword12")),
        Err(StoreError::NotFound)
    );
}

#[test]
fn delete_user_marks_the_account_once() {
    let mut db = sample();
    let id = String::from("u1");
    assert_eq!(User::delete_user(&mut db, &id), Ok(user("u1", "ann@mail.com", true)));
    let mut expected = sample();
    expected.users[0].is_deleted = true;
    assert_eq!(db.users, expected.users);
    assert_eq!(User::delete_user(&mut db, &id), Err(StoreError::NotFound));
    assert_eq!(User::delete_user(&mut db, &String::from("u9")), Err(StoreError::NotFound));
    assert_eq!(db.users, expected.users);
}

#[test]
fn insert_refuses_an_identifier_that_is_taken() {
    let mut db = sample();
    assert_eq!(User::insert(&mut db, user("u2", "new@mail.com", false)), Err(StoreError::Duplicate));
    assert_eq!(
        Portfolio::insert(&mut db, portfolio("folio-2", "new", "u1", false)),
        Err(StoreError::Duplicate)
    );
    assert_eq!(Ticker::insert(&mut db, ticker("t2", "NEW", "folio-1", false)), Err(StoreError::Duplicate));
    assert_eq!(db.users, sample().users);
    assert_eq!(User::insert(&mut db, user("u5", "new@mail.com", false)), Ok(user("u5", "new@mail.com", false)));
    assert_eq!(db.users.len(), 5);
    assert_eq!(db.users[4], user("u5", "new@mail.com", false));
    assert!(db.is_consistent());
}

#[test]
fn registration_hashes_the_password() {
    let mut db = Database::new();
    let created =
        NewUser::create(String::from("ann@mail.com"), String::from("pA5!ssword12"), &mut db).unwrap();
    assert_eq!(created.email, "ann@mail.com");
    assert!(!created.is_deleted);
    assert!(pwhash::bcrypt::verify("pA5!ssword12", &created.password));
    assert_eq!(db.users, vec![created]);
}

#[test]
fn registration_refuses_an_address_in_use() {
    let mut db = sample();
    assert_eq!(
        NewUser::store(user("u5", "ann@mail.com", false), &mut db),
        Err(StoreError::Duplicate)
    );
    assert_eq!(db.users, sample().users);
    // The address of a deleted account stays taken.
    db.users[0].is_deleted = true;
    let before = db.users.clone();
    assert_eq!(
        NewUser::store(user("u5", "ann@mail.com", false), &mut db),
        Err(StoreError::Duplicate)
    );
    assert_eq!(db.users, before);
    assert_eq!(
        NewUser::store(user("u5", "new@mail.com", false), &mut db),
        Ok(user("u5", "new@mail.com", false))
    );
    assert_eq!(
        NewUser::store(user("u1", "other@mail.com", false), &mut db),
        Err(StoreError::Duplicate)
    );
}

#[test]
fn an_address_is_taken_by_any_account() {
    let mut db = sample();
    assert!(User::email_taken(&db, &String::from("ann@mail.com")));
    assert!(User::email_taken(&db, &String::from("bob@mail.com")));
    assert!(!User::email_taken(&db, &String::from("eve@mail.com")));
    for account in db.users.iter_mut() {
        account.is_deleted = true;
    }
    assert!(User::email_taken(&db, &String::from("ann@mail.com")));
    assert!(!User::email_taken(&Database::new(), &String::from("ann@mail.com")));
}

#[test]
fn registration_is_refused_after_the_account_is_deleted() {
    let mut db = Database::new();
    let created =
        NewUser::create(String::from("ann@mail.com"), String::from("pA5!ssword12"), &mut db).unwrap();
    User::delete_user(&mut db, &created.id).unwrap();
    assert_eq!(
        NewUser::create(String::from("ann@mail.com"), String::from("pA5!ssword12"), &mut db),
        Err(StoreError::Duplicate)
    );
    assert_eq!(db.users.len(), 1);
}

#[test]
fn portfolios_of_a_user_are_those_not_deleted() {
    let db = sample();
    assert_eq!(
        Portfolio::get_all_from_user(&db, &String::from("u1")),
        Ok(vec![
            portfolio("folio-1", "growth", "u1", false),
            portfolio("folio-4", "income", "u1", false),
            portfolio("folio-5", "income", "u1", false),
        ])
    );
    assert_eq!(Portfolio::get_all_from_user(&db, &String::from("u9")), Ok(vec![]));
}

#[test]
fn portfolio_by_id_hides_the_deleted() {
    let db = sample();
    assert_eq!(Portfolio::get_by_id(&db, String::from("folio-1")), Ok(portfolio("folio-1", "growth", "u1", false)));
    assert_eq!(Portfolio::get_by_id(&db, String::from("folio-2")), Err(StoreError::NotFound));
    assert_eq!(Portfolio::get_by_id(&db, String::from("folio-9")), Err(StoreError::NotFound));
}

#[test]
fn portfolio_by_name_is_the_last_one_not_deleted() {
    let db = sample();
    let owner = String::from("u1");
    assert_eq!(
        Portfolio::get_by_name(&db, &String::from("income"), &owner),
        Ok(Some(portfolio("folio-5", "income", "u1", false)))
    );
    assert_eq!(
        Portfolio::get_by_name(&db, &String::from("growth"), &owner),
        Ok(Some(portfolio("folio-1", "growth", "u1", false)))
    );
    assert_eq!(Portfolio::get_by_name(&db, &String::from("growth"), &String::from("u2")), Ok(None));
    assert_eq!(Portfolio::get_by_name(&db, &String::from("other"), &owner), Ok(None));
}

#[test]
fn update_name_renames_what_is_not_deleted() {
    let mut db = sample();
    assert_eq!(
        portfolio("folio-1", "", "", false).update_name(&mut db, String::from("value")),
        Ok(portfolio("folio-1", "value", "u1", false))
    );
    assert_eq!(db.portfolios[0].name, "value");
    assert_eq!(
        portfolio("folio-2", "", "", false).update_name(&mut db, String::from("value")),
        Err(StoreError::NotFound)
    );
    assert_eq!(db.portfolios[1..], sample().portfolios[1..]);
}

#[test]
fn delete_portfolio_marks_it_once() {
    let mut db = sample();
    let id = String::from("folio-4");
    assert_eq!(Portfolio::delete_portfolio(&mut db, &id), Ok(portfolio("folio-4", "income", "u1", true)));
    let mut expected = sample();
    expected.portfolios[3].is_deleted = true;
    assert_eq!(db.portfolios, expected.portfolios);
    assert_eq!(db.tickers, expected.tickers);
    assert_eq!(Portfolio::delete_portfolio(&mut db, &id), Err(StoreError::NotFound));
    assert_eq!(db.portfolios, expected.portfolios);
}

#[test]
fn second_portfolio_of_a_name_is_a_duplicate() {
    let mut db = Database::new();
    let first = NewPortfolio::create(String::from("growth"), String::from("u1"), &mut db).unwrap();
    assert_eq!((first.name.as_str(), first.user_id.as_str(), first.is_deleted), ("growth", "u1", false));
    assert_eq!(db.portfolios, vec![first.duplicate()]);
    assert_eq!(
        NewPortfolio::create(String::from("growth"), String::from("u1"), &mut db),
        Err(StoreError::Duplicate)
    );
    assert_eq!(db.portfolios, vec![first.duplicate()]);
    // Another user may use the name, and so may the same user once the first is gone.
    assert!(NewPortfolio::create(String::from("growth"), String::from("u2"), &mut db).is_ok());
    Portfolio::delete_portfolio(&mut db, &first.id).unwrap();
    assert!(NewPortfolio::create(String::from("growth"), String::from("u1"), &mut db).is_ok());
    assert_eq!(db.portfolios.len(), 3);
    assert!(db.is_consistent());
}

#[test]
fn store_refuses_a_portfolio_whose_identifier_is_taken() {
    let mut db = sample();
    assert_eq!(
        NewPortfolio::store(portfolio("folio-3", "fresh", "u1", false), &mut db),
        Err(StoreError::Duplicate)
    );
    assert_eq!(
        NewPortfolio::store(portfolio("folio-6", "fresh", "u1", false), &mut db),
        Ok(portfolio("folio-6", "fresh", "u1", false))
    );
}

#[test]
fn tickers_of_a_portfolio_are_those_not_deleted() {
    let db = sample();
    assert_eq!(
        Ticker::get_all_from_portfolio(&db, String::from("folio-1")),
        Ok(vec![
            ticker("t1", "AAPL", "folio-1", false),
            ticker("t4", "TSLA", "folio-1", false),
            ticker("t5", "AAPL", "folio-1", false),
        ])
    );
    assert_eq!(Ticker::get_all_from_portfolio(&db, String::from("folio-9")), Ok(vec![]));
}

#[test]
fn ticker_by_id_hides_the_deleted() {
    let db = sample();
    assert_eq!(Ticker::get_by_id(&db, &String::from("t1")), Ok(Some(ticker("t1", "AAPL", "folio-1", false))));
    assert_eq!(Ticker::get_by_id(&db, &String::from("t2")), Ok(None));
    assert_eq!(Ticker::get_by_id(&db, &String::from("folio-1")), Ok(None));
    assert_eq!(Ticker::get_by_id(&db, &String::from("t9")), Ok(None));
}

#[test]
fn ticker_by_name_is_the_last_one_not_deleted() {
    let db = sample();
    let holder = String::from("folio-1");
    assert_eq!(
        Ticker::get_by_name(&db, &String::from("AAPL"), &holder),
        Ok(Some(ticker("t5", "AAPL", "folio-1", false)))
    );
    assert_eq!(Ticker::get_by_name(&db, &String::from("MSFT"), &holder), Ok(None));
    assert_eq!(Ticker::get_by_name(&db, &String::from("TSLA"), &String::from("folio-3")), Ok(None));
}

#[test]
fn delete_ticker_marks_it_once() {
    let mut db = sample();
    let id = String::from("t4");
    assert_eq!(Ticker::delete_ticker(&mut db, &id), Ok(ticker("t4", "TSLA", "folio-1", true)));
    let mut expected = sample();
    expected.tickers[3].is_deleted = true;
    assert_eq!(db.tickers, expected.tickers);
    assert_eq!(Ticker::delete_ticker(&mut db, &id), Err(StoreError::NotFound));
    assert_eq!(Ticker::delete_ticker(&mut db, &String::from("t2")), Err(StoreError::NotFound));
    assert_eq!(db.tickers, expected.tickers);
}

#[test]
fn delete_tickers_marks_all_of_a_portfolio() {
    let mut db = sample();
    assert_eq!(
        Ticker::delete_tickers(&mut db, &String::from("folio-1")),
        Ok(vec![
            ticker("t1", "AAPL", "folio-1", true),
            ticker("t4", "TSLA", "folio-1", true),
            ticker("t5", "AAPL", "folio-1", true),
        ])
    );
    let mut expected = sample();
    for i in [0, 3, 4] {
        expected.tickers[i].is_deleted = true;
    }
    assert_eq!(db.tickers, expected.tickers);
    assert_eq!(db.portfolios, expected.portfolios);
    assert_eq!(Ticker::delete_tickers(&mut db, &String::from("folio-1")), Ok(vec![]));
    assert_eq!(db.tickers, expected.tickers);
}

#[test]
fn second_ticker_of_a_symbol_is_a_duplicate() {
    let mut db = Database::new();
    let first = NewTicker::create(String::from("AAPL"), String::from("folio-1"), &mut db).unwrap();
    assert_eq!((first.name.as_str(), first.portfolio_id.as_str(), first.is_deleted), ("AAPL", "folio-1", false));
    assert_eq!(
        NewTicker::create(String::from("AAPL"), String::from("folio-1"), &mut db),
        Err(StoreError::Duplicate)
    );
    assert!(NewTicker::create(String::from("AAPL"), String::from("folio-2"), &mut db).is_ok());
    assert_eq!(
        NewTicker::store(ticker(&first.id, "MSFT", "folio-1", false), &mut db),
        Err(StoreError::Duplicate)
    );
    assert_eq!(db.tickers.len(), 2);
}

#[test]
fn creation_succeeds_where_no_identifier_can_clash() {
    // No stored identifier has the 36 characters of one that is drawn.
    let mut db = sample();
    let created = NewPortfolio::create(String::from("fresh"), String::from("u1"), &mut db).unwrap();
    assert_eq!(db.portfolios.len(), 6);
    assert_eq!(db.portfolios[5], created);
    let added = NewTicker::create(String::from("GOOG"), String::from("folio-1"), &mut db).unwrap();
    assert_eq!(db.tickers.len(), 6);
    assert_eq!(db.tickers[5], added);
    // The same holds on an empty store, and among identifiers that were drawn themselves.
    let mut db = Database::new();
    for name in ["a", "b", "c"] {
        assert!(NewPortfolio::create(String::from(name), String::from("u1"), &mut db).is_ok());
        assert!(NewTicker::create(String::from(name), String::from("folio-1"), &mut db).is_ok());
    }
    assert!(db.is_consistent());
}

#[test]
fn records_are_compared_field_by_field() {
    let u = user("u1", "ann@mail.com", false);
    assert!(u.same(&u.duplicate()));
    assert!(!u.same(&user("u2", "ann@mail.com", false)));
    assert!(!u.same(&user("u1", "bob@mail.com", false)));
    assert!(!u.same(&user("u1", "ann@mail.com", true)));
    assert!(!u.same(&User { password: String::from("other"), ..u.duplicate() }));
    let p = portfolio("folio-1", "growth", "u1", false);
    assert!(p.same(&p.duplicate()));
    assert!(!p.same(&portfolio("folio-2", "growth", "u1", false)));
    assert!(!p.same(&portfolio("folio-1", "income", "u1", false)));
    assert!(!p.same(&portfolio("folio-1", "growth", "u2", false)));
    assert!(!p.same(&portfolio("folio-1", "growth", "u1", true)));
    assert!(!p.same(&Portfolio { created_at: CalendarDate { year: 2022, month: 1, day: 2 }, ..p.duplicate() }));
    let t = ticker("t1", "AAPL", "folio-1", false);
    assert!(t.same(&t.duplicate()));
    assert!(!t.same(&ticker("t2", "AAPL", "folio-1", false)));
    assert!(!t.same(&ticker("t1", "MSFT", "folio-1", false)));
    assert!(!t.same(&ticker("t1", "AAPL", "folio-2", false)));
    assert!(!t.same(&ticker("t1", "AAPL", "folio-1", true)));
}

#[test]
fn changes_are_the_new_and_the_changed_records() {
    let before = sample();
    let mut after = sample();
    let none = after.changes_since(&before);
    assert!(none.users.is_empty() && none.portfolios.is_empty() && none.tickers.is_empty());
    after.users[1].email = String::from("rob@mail.com");
    after.users.push(user("u5", "eve@mail.com", false));
    after.portfolios[4].is_deleted = true;
    after.tickers[0].is_deleted = true;
    after.tickers[3].is_deleted = true;
    after.tickers.push(ticker("t6", "GOOG", "folio-1", false));
    let changes = after.changes_since(&before);
    assert_eq!(changes.users, vec![user("u2", "rob@mail.com", true), user("u5", "eve@mail.com", false)]);
    assert_eq!(changes.portfolios, vec![portfolio("folio-5", "income", "u1", true)]);
    assert_eq!(
        changes.tickers,
        vec![
            ticker("t1", "AAPL", "folio-1", true),
            ticker("t4", "TSLA", "folio-1", true),
            ticker("t6", "GOOG", "folio-1", false),
        ]
    );
    let all = after.changes_since(&Database::new());
    assert_eq!(all, after);
}

#[test]
fn errors_have_names() {
    assert_eq!(StoreError::NotFound.describe(), "NotFound");
    assert_eq!(StoreError::Duplicate.describe(), "Duplicate");
    assert_eq!(StoreError::Internal.describe(), "Internal");
}
