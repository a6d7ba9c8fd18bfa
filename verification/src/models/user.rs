//! User accounts.

use crate::adapters::{bcrypt_hash, fresh_id, hash_opens};
use crate::error::StoreError;
use crate::models::authentication::{generate, issued_now, Claims, TokenSettings};
use crate::rows::{
    find_first, find_last, first_where, last_where, lemma_first_where, lemma_last_where,
};
use crate::schema::{Database, Tables};
use vstd::prelude::*;
use vstd::string::*;

verus! {

/// An account. `password` holds a bcrypt hash, never the password itself.
#[derive(Debug, Clone, PartialEq, Eq)]
pub struct User {
    pub id: String,
    pub email: String,
    pub password: String,
    pub is_deleted: bool,
}

/// A [`User`] as a mathematical value.
pub struct UserRow {
    pub id: Seq<char>,
    pub email: Seq<char>,
    pub password: Seq<char>,
    pub is_deleted: bool,
}

impl View for User {
    type V = UserRow;

    open spec fn view(&self) -> UserRow {
        UserRow {
            id: self.id@,
            email: self.email@,
            password: self.password@,
            is_deleted: self.is_deleted,
        }
    }
}

/// The records of `users` as mathematical values.
pub open spec fn user_rows(users: Seq<User>) -> Seq<UserRow> {
    users.map_values(|u: User| u@)
}

/// The users with identifier `id`.
pub open spec fn user_with_id(id: Seq<char>) -> spec_fn(UserRow) -> bool {
    |u: UserRow| u.id == id
}

/// The users with identifier `id` that are not deleted.
pub open spec fn live_user_with_id(id: Seq<char>) -> spec_fn(UserRow) -> bool {
    |u: UserRow| u.id == id && !u.is_deleted
}

/// The users with address `email` that are not deleted.
pub open spec fn live_user_with_email(email: Seq<char>) -> spec_fn(UserRow) -> bool {
    |u: UserRow| u.email == email && !u.is_deleted
}

/// The users with address `email`, deleted or not.
pub open spec fn user_with_email(email: Seq<char>) -> spec_fn(UserRow) -> bool {
    |u: UserRow| u.email == email
}

impl Tables {
    /// These tables with `row` in place of the user at position `i`.
    pub open spec fn with_user(self, i: int, row: UserRow) -> Tables {
        Tables { users: self.users.update(i, row), ..self }
    }

    /// These tables with `row` added behind the other users.
    pub open spec fn plus_user(self, row: UserRow) -> Tables {
        Tables { users: self.users.push(row), ..self }
    }
}

impl User {
    /// A copy of this record.
    pub fn duplicate(&self) -> (copy: User)
        ensures
            copy@ == self@,
    {
        User {
            id: self.id.clone(),
            email: self.email.clone(),
            password: self.password.clone(),
            is_deleted: self.is_deleted,
        }
    }

    /// Whether two records read alike in every field.
    pub fn same(&self, other: &User) -> (alike: bool)
        ensures
            alike == (self@ == other@),
    {
        self.id == other.id && self.email == other.email && self.password == other.password
            && self.is_deleted == other.is_deleted
    }

    /// A new account under a fresh random identifier.
    pub fn new(email: String, password: String) -> (user: User)
        ensures
            user.email@ == email@,
            user.password@ == password@,
            !user.is_deleted,
            user.id@.len() == 36,
    {
        User { id: fresh_id(), email, password, is_deleted: false }
    }

    /// Every account, deleted ones included, in the order of registration.
    pub fn get_all(db: &Database) -> (r: Result<Vec<User>, StoreError>)
        ensures
            r matches Ok(users) && user_rows(users@) == db@.users,
    {
        let mut users: Vec<User> = Vec::new();
        let n = db.users.len();
        let mut i: usize = 0;
        while i < n
            invariant
                n == db.users@.len(),
                i <= n,
                users@.len() == i,
                forall|j: int| 0 <= j < i ==> (#[trigger] users@[j])@ == db.users@[j]@,
            decreases n - i,
        {
            users.push(db.users[i].duplicate());
            i += 1;
        }
        assert(user_rows(users@) =~= db@.users);
        Ok(users)
    }

    /// Where the first record with identifier `id` stands, or the number of
    /// records where there is none.
    fn position(db: &Database, id: &String) -> (i: usize)
        ensures
            i == first_where(db@.users, user_with_id(id@), 0),
            i <= db.users@.len(),
            i < db.users@.len() ==> db.users@[i as int].id@ == id@,
    {
        let n = db.users.len();
        let mut i: usize = 0;
        while i < n && db.users[i].id != *id
            invariant
                n == db.users@.len(),
                i <= n,
                first_where(db@.users, user_with_id(id@), 0) == first_where(
                    db@.users,
                    user_with_id(id@),
                    i as int,
                ),
            decreases n - i,
        {
            i += 1;
        }
        i
    }

    /// The account with identifier `id`, deleted or not.
    pub fn get_by_id(db: &Database, id: &String) -> (r: Result<User, StoreError>)
        ensures
            match find_first(db@.users, user_with_id(id@)) {
                Some(row) => r matches Ok(u) && u@ == row,
                None => r == Err::<User, StoreError>(StoreError::NotFound),
            },
    {
        let i = User::position(db, id);
        if i < db.users.len() {
            Ok(db.users[i].duplicate())
        } else {
            Err(StoreError::NotFound)
        }
    }

    /// The account registered last under `email` among those not deleted.
    pub fn get_by_email(db: &Database, email: &String) -> (r: Result<User, StoreError>)
        ensures
            match find_last(db@.users, live_user_with_email(email@)) {
                Some(row) => r matches Ok(u) && u@ == row,
                None => r == Err::<User, StoreError>(StoreError::NotFound),
            },
    {
        let mut i: usize = db.users.len();
        while i > 0 && !(db.users[i - 1].email == *email && !db.users[i - 1].is_deleted)
            invariant
                i <= db.users@.len(),
                last_where(db@.users, live_user_with_email(email@), db@.users.len() as int)
                    == last_where(db@.users, live_user_with_email(email@), i as int),
            decreases i,
        {
            i -= 1;
        }
        if i > 0 {
            Ok(db.users[i - 1].duplicate())
        } else {
            Err(StoreError::NotFound)
        }
    }

    /// Gives the account with this record's identifier the address `email`
    /// and returns the record as it then stands.
    pub fn update_email(self, db: &mut Database, email: String) -> (r: Result<User, StoreError>)
        ensures
            old(db).wf() ==> final(db).wf(),
            match find_first(old(db)@.users, user_with_id(self.id@)) {
                Some(row) => {
                    let changed = UserRow { email: email@, ..row };
                    &&& r matches Ok(u) && u@ == changed
                    &&& final(db)@ == old(db)@.with_user(
                        first_where(old(db)@.users, user_with_id(self.id@), 0),
                        changed,
                    )
                },
                None => r == Err::<User, StoreError>(StoreError::NotFound) && final(db)@
                    == old(db)@,
            },
    {
        let i = User::position(db, &self.id);
        if i < db.users.len() {
            let updated = User {
                id: db.users[i].id.clone(),
                email,
                password: db.users[i].password.clone(),
                is_deleted: db.users[i].is_deleted,
            };
            let copy = updated.duplicate();
            db.users.set(i, updated);
            assert(db@.users =~= old(db)@.users.update(i as int, copy@));
            Ok(copy)
        } else {
            assert(db@.users =~= old(db)@.users);
            Err(StoreError::NotFound)
        }
    }

    /// Replaces the stored hash of the account with this record's identifier
    /// by `hash`.
    pub fn store_password(self, db: &mut Database, hash: String) -> (r: Result<(), StoreError>)
        ensures
            old(db).wf() ==> final(db).wf(),
            match find_first(old(db)@.users, user_with_id(self.id@)) {
                Some(row) => r is Ok && final(db)@ == old(db)@.with_user(
                    first_where(old(db)@.users, user_with_id(self.id@), 0),
                    UserRow { password: hash@, ..row },
                ),
                None => r == Err::<(), StoreError>(StoreError::NotFound) && final(db)@ == old(db)@,
            },
    {
        let i = User::position(db, &self.id);
        if i < db.users.len() {
            let updated = User {
                id: db.users[i].id.clone(),
                email: db.users[i].email.clone(),
                password: hash,
                is_deleted: db.users[i].is_deleted,
            };
            let ghost row = updated@;
            db.users.set(i, updated);
            assert(db@.users =~= old(db)@.users.update(i as int, row));
            Ok(())
        } else {
            assert(db@.users =~= old(db)@.users);
            Err(StoreError::NotFound)
        }
    }

    /// Hashes `password` and stores the hash for the account with this
    /// record's identifier. The hash is salted at random: whichever hash was
    /// stored, it is one that matches `password`.
    pub fn update_password(self, db: &mut Database, password: String) -> (r: Result<
        (),
        StoreError,
    >)
        ensures
            old(db).wf() ==> final(db).wf(),
            r matches Err(e) ==> final(db)@ == old(db)@ && e != StoreError::Duplicate,
            r == Err::<(), StoreError>(StoreError::NotFound) ==> find_first(
                old(db)@.users,
                user_with_id(self.id@),
            ) is None,
            r is Ok ==> exists|hash: Seq<char>|
                {
                    &&& hash_opens(password@, hash)
                    &&& find_first(old(db)@.users, user_with_id(self.id@)) matches Some(row)
                    &&& final(db)@ == old(db)@.with_user(
                        first_where(old(db)@.users, user_with_id(self.id@), 0),
                        UserRow { password: hash, ..row },
                    )
                },
    {
        match bcrypt_hash(password.as_str()) {
            Some(hash) => {
                let ghost h = hash@;
                let r = self.store_password(db, hash);
                proof {
                    if r is Ok {
                        assert(hash_opens(password@, h));
                        let row = find_first(old(db)@.users, user_with_id(self.id@))->0;
                        assert(final(db)@ == old(db)@.with_user(
                            first_where(old(db)@.users, user_with_id(self.id@), 0),
                            UserRow { password: h, ..row },
                        ));
                    }
                }
                r
            },
            None => Err(StoreError::Internal),
        }
    }

    /// Marks the account with identifier `user_id` as deleted and returns
    /// the record as it then stands. An account that is deleted already is
    /// not found.
    pub fn delete_user(db: &mut Database, user_id: &String) -> (r: Result<User, StoreError>)
        ensures
            old(db).wf() ==> final(db).wf(),
            match find_first(old(db)@.users, live_user_with_id(user_id@)) {
                Some(row) => {
                    let changed = UserRow { is_deleted: true, ..row };
                    &&& r matches Ok(u) && u@ == changed
                    &&& final(db)@ == old(db)@.with_user(
                        first_where(old(db)@.users, live_user_with_id(user_id@), 0),
                        changed,
                    )
                },
                None => r == Err::<User, StoreError>(StoreError::NotFound) && final(db)@
                    == old(db)@,
            },
    {
        let n = db.users.len();
        let mut i: usize = 0;
        while i < n && !(db.users[i].id == *user_id && !db.users[i].is_deleted)
            invariant
                n == db.users@.len(),
                i <= n,
                first_where(db@.users, live_user_with_id(user_id@), 0) == first_where(
                    db@.users,
                    live_user_with_id(user_id@),
                    i as int,
                ),
            decreases n - i,
        {
            i += 1;
        }
        if i < n {
            let updated = User {
                id: db.users[i].id.clone(),
                email: db.users[i].email.clone(),
                password: db.users[i].password.clone(),
                is_deleted: true,
            };
            let copy = updated.duplicate();
            db.users.set(i, updated);
            assert(db@.users =~= old(db)@.users.update(i as int, copy@));
            Ok(copy)
        } else {
            assert(db@.users =~= old(db)@.users);
            Err(StoreError::NotFound)
        }
    }

    /// Issues a token to this user: see [`generate`].
    pub fn generate_jwt(&self, settings: &TokenSettings) -> (token: String)
        ensures
            issued_now(self@, settings.secret@, settings.lifetime as int, token@),
    {
        generate(self, settings)
    }

    /// The user that `claims` name. The record is made from the claims alone:
    /// it carries no password and is not deleted.
    pub fn from_jwt(claims: &Claims) -> (user: User)
        ensures
            user@ == (UserRow {
                id: claims.sub@,
                email: claims.email@,
                password: Seq::empty(),
                is_deleted: false,
            }),
    {
        User {
            id: claims.sub.clone(),
            email: claims.email.clone(),
            password: String::new(),
            is_deleted: false,
        }
    }

    /// Whether an account holds the address `email`, deleted or not.
    pub fn email_taken(db: &Database, email: &String) -> (taken: bool)
        ensures
            taken == find_last(db@.users, user_with_email(email@)) is Some,
    {
        let mut i: usize = db.users.len();
        while i > 0 && db.users[i - 1].email != *email
            invariant
                i <= db.users@.len(),
                last_where(db@.users, user_with_email(email@), db@.users.len() as int)
                    == last_where(db@.users, user_with_email(email@), i as int),
            decreases i,
        {
            i -= 1;
        }
        i > 0
    }

    /// Adds `user` to the table, unless its identifier is taken.
    pub fn insert(db: &mut Database, user: User) -> (r: Result<User, StoreError>)
        ensures
            old(db).wf() ==> final(db).wf(),
            match find_first(old(db)@.users, user_with_id(user.id@)) {
                Some(_) => r == Err::<User, StoreError>(StoreError::Duplicate) && final(db)@
                    == old(db)@,
                None => {
                    &&& r matches Ok(u) && u@ == user@
                    &&& final(db)@ == old(db)@.plus_user(user@)
                },
            },
    {
        let i = User::position(db, &user.id);
        if i < db.users.len() {
            assert(db@.users =~= old(db)@.users);
            Err(StoreError::Duplicate)
        } else {
            let copy = user.duplicate();
            proof {
                lemma_first_where(old(db)@.users, user_with_id(user.id@), 0);
            }
            db.users.push(user);
            assert(db@.users =~= old(db)@.users.push(copy@));
            Ok(copy)
        }
    }
}

/// Whether no stored account can have the identifier that is drawn for a
/// new one: none has an identifier of 36 characters.
pub open spec fn no_user_clashes(users: Seq<UserRow>) -> bool {
    forall|i: int| 0 <= i < users.len() ==> (#[trigger] users[i]).id.len() != 36
}

/// What a visitor sends to register.
#[derive(Debug, Clone, PartialEq, Eq)]
pub struct NewUser {
    pub email: String,
    pub password: String,
}

impl Tables {
    /// Whether the account `row` may be added: no account has its address,
    /// not even a deleted one, and its identifier is not taken.
    pub open spec fn admits_user(self, row: UserRow) -> bool {
        &&& find_last(self.users, user_with_email(row.email)) is None
        &&& find_first(self.users, user_with_id(row.id)) is None
    }
}

impl NewUser {
    /// Adds `candidate` where the tables admit it, and refuses it as a
    /// duplicate where they do not.
    pub fn store(candidate: User, db: &mut Database) -> (r: Result<User, StoreError>)
        ensures
            old(db).wf() ==> final(db).wf(),
            if old(db)@.admits_user(candidate@) {
                &&& r matches Ok(u) && u@ == candidate@
                &&& final(db)@ == old(db)@.plus_user(candidate@)
            } else {
                r == Err::<User, StoreError>(StoreError::Duplicate) && final(db)@ == old(db)@
            },
    {
        if User::email_taken(db, &candidate.email) {
            Err(StoreError::Duplicate)
        } else {
            User::insert(db, candidate)
        }
    }

    /// Registers an account for `email` under a fresh identifier, with a
    /// salted hash of `password`. It is refused as a duplicate where an
    /// account has the address, deleted or not, or where the identifier drawn
    /// is taken; where hashing fails the error is internal. The identifier
    /// drawn has 36 characters: where no stored identifier has as many, none
    /// can be taken, and only the address can make a duplicate.
    pub fn create(email: String, password: String, db: &mut Database) -> (r: Result<
        User,
        StoreError,
    >)
        ensures
            old(db).wf() ==> final(db).wf(),
            find_last(old(db)@.users, user_with_email(email@)) is Some ==> r is Err,
            find_last(old(db)@.users, user_with_email(email@)) is None && no_user_clashes(
                old(db)@.users,
            ) ==> r != Err::<User, StoreError>(StoreError::Duplicate),
            match r {
                Ok(u) => {
                    &&& u.email@ == email@
                    &&& hash_opens(password@, u.password@)
                    &&& !u.is_deleted
                    &&& old(db)@.admits_user(u@)
                    &&& final(db)@ == old(db)@.plus_user(u@)
                },
                Err(e) => e != StoreError::NotFound && final(db)@ == old(db)@,
            },
    {
        let hash = match bcrypt_hash(password.as_str()) {
            Some(hash) => hash,
            None => {
                return Err(StoreError::Internal);
            },
        };
        let user = User::new(email, hash);
        proof {
            lemma_first_where(db@.users, user_with_id(user.id@), 0);
        }
        NewUser::store(user, db)
    }
}

/// After an account is registered, no second one is admitted under the same
/// address, whether or not the first is deleted in between.
pub proof fn lemma_second_user_refused(tables: Tables, first: UserRow, second: UserRow)
    requires
        second.email == first.email,
    ensures
        !tables.plus_user(first).admits_user(second),
        !tables.plus_user(UserRow { is_deleted: true, ..first }).admits_user(second),
{
    let rows = tables.plus_user(first).users;
    assert(rows[rows.len() - 1] == first);
    lemma_last_where(rows, user_with_email(second.email), rows.len() as int);
    let gone = tables.plus_user(UserRow { is_deleted: true, ..first }).users;
    assert(gone[gone.len() - 1].email == first.email);
    lemma_last_where(gone, user_with_email(second.email), gone.len() as int);
}

/// No two accounts share an address, deleted or not.
pub open spec fn emails_unique(users: Seq<UserRow>) -> bool {
    forall|i: int, j: int|
        0 <= i < j < users.len() ==> (#[trigger] users[i]).email != (#[trigger] users[j]).email
}

/// Adding an account that the tables admit keeps the addresses unique and
/// the identifiers distinct.
pub proof fn lemma_admitted_user_keeps_emails_unique(tables: Tables, row: UserRow)
    requires
        tables.wf(),
        emails_unique(tables.users),
        tables.admits_user(row),
    ensures
        tables.plus_user(row).wf(),
        emails_unique(tables.plus_user(row).users),
{
    let rows = tables.users;
    lemma_last_where(rows, user_with_email(row.email), rows.len() as int);
    lemma_first_where(rows, user_with_id(row.id), 0);
    let after = tables.plus_user(row).users;
    assert forall|i: int, j: int| 0 <= i < j < after.len() implies (#[trigger] after[i]).email != (
    #[trigger] after[j]).email by {
        if j < rows.len() {
            assert(after[i] == rows[i] && after[j] == rows[j]);
        } else {
            assert(after[i] == rows[i]);
            assert(!user_with_email(row.email)(rows[i]));
        }
    }
    assert forall|i: int, j: int| 0 <= i < j < after.len() implies (#[trigger] after[i]).id != (
    #[trigger] after[j]).id by {
        if j < rows.len() {
            assert(after[i] == rows[i] && after[j] == rows[j]);
        } else {
            assert(after[i] == rows[i]);
            assert(!user_with_id(row.id)(rows[i]));
        }
    }
}

} // verus!
