//! The credential store: user records, unique usernames and identities,
//! salted password hashes.

use vstd::prelude::*;

use crate::hashing::{check_password, hash_with_salt, new_salt, password_verifies};
use crate::ids::random_id;

verus! {

/// What the store keeps of one user, beside the username it is filed under.
pub struct Account {
    pub identity: Seq<char>,
    pub password_hash: Seq<char>,
}

/// Why a user could not be created.
#[derive(Debug, PartialEq, Eq, Structural)]
pub enum UserError {
    /// The username is already registered.
    DuplicateUsername,
    /// The key derivation produced no hash.
    HashingFailure,
    /// The freshly drawn identity already belongs to a user.
    IdentityTaken,
}

/// The identity that `username` and `password` sign in as, if any: the
/// username is registered and the password checks out against its hash.
pub open spec fn verified_identity(
    accounts: Map<Seq<char>, Account>,
    username: Seq<char>,
    password: Seq<char>,
) -> Option<Seq<char>> {
    if accounts.contains_key(username) && password_verifies(password, accounts[username].password_hash) {
        Some(accounts[username].identity)
    } else {
        None
    }
}

/// Some registered user has `identity`.
pub open spec fn identity_in_use(accounts: Map<Seq<char>, Account>, identity: Seq<char>) -> bool {
    exists|u: Seq<char>| #[trigger] accounts.contains_key(u) && accounts[u].identity == identity
}

/// `after` is `before` with one new user `username`, filed under a fresh,
/// non-empty identity and a hash that `password` checks out against.
pub open spec fn registered(
    before: Map<Seq<char>, Account>,
    after: Map<Seq<char>, Account>,
    username: Seq<char>,
    password: Seq<char>,
) -> bool {
    &&& !before.contains_key(username)
    &&& after.contains_key(username)
    &&& after.remove(username) == before
    &&& after[username].identity.len() > 0
    &&& !identity_in_use(before, after[username].identity)
    &&& password_verifies(password, after[username].password_hash)
}

/// The accounts whose identity is not `identity`.
pub open spec fn without_identity(accounts: Map<Seq<char>, Account>, identity: Seq<char>) -> Map<
    Seq<char>,
    Account,
> {
    Map::new(|u: Seq<char>| accounts.contains_key(u) && accounts[u].identity != identity, |u: Seq<char>| accounts[u])
}

/// A credential store, seen as a map from username to account.
pub trait Users {
    spec fn wf(&self) -> bool;

    spec fn accounts(&self) -> Map<Seq<char>, Account>;

    /// Registers `username` with a salted hash of `password` under a new
    /// identity. A registered username is refused, and nothing changes.
    fn create_user(&mut self, username: String, password: String) -> (r: Result<(), UserError>)
        requires
            old(self).wf(),
        ensures
            final(self).wf(),
            r == Err::<(), UserError>(UserError::DuplicateUsername) <==> old(self).accounts().contains_key(username@),
            r is Ok ==> registered(old(self).accounts(), final(self).accounts(), username@, password@),
            r is Err ==> final(self).accounts() == old(self).accounts(),
    ;

    /// The identity of `username` when `password` checks out against its
    /// stored hash; `None` for an unknown username or a wrong password.
    fn get_user_uuid(&self, username: String, password: String) -> (r: Option<String>)
        requires
            self.wf(),
        ensures
            (match r {
                Some(id) => verified_identity(self.accounts(), username@, password@) == Some(id@),
                None => verified_identity(self.accounts(), username@, password@) is None,
            }),
    ;

    /// Removes the user with identity `user_uuid`, if there is one.
    fn delete_user(&mut self, user_uuid: String)
        requires
            old(self).wf(),
        ensures
            final(self).wf(),
            final(self).accounts() == without_identity(old(self).accounts(), user_uuid@),
    ;
}

/// One user record.
#[derive(Clone)]
pub struct User {
    /// The user's identity.
    pub user_uuid: String,
    /// The name the user signs in with.
    pub username: String,
    /// The PHC string of the salted password hash.
    pub password: String,
}

impl User {
    pub open spec fn account(&self) -> Account {
        Account { identity: self.user_uuid@, password_hash: self.password@ }
    }
}

/// An in-memory credential store: a list of records, looked up by username
/// and by identity, both of which are unique.
pub struct UsersImpl {
    records: Vec<User>,
    model: Ghost<Map<Seq<char>, Account>>,
}

impl UsersImpl {
    /// An empty store.
    pub fn new() -> (r: Self)
        ensures
            r.wf(),
            r.accounts() == Map::<Seq<char>, Account>::empty(),
    {
        UsersImpl { records: Vec::new(), model: Ghost(Map::empty()) }
    }

    /// How many users are registered.
    pub fn user_count(&self) -> (r: usize)
        requires
            self.wf(),
        ensures
            r == self.accounts().len(),
    {
        self.records.len()
    }

    /// The position of the record filed under `username`.
    fn find_username(&self, username: &String) -> (r: Option<usize>)
        ensures
            (match r {
                Some(i) => i < self.records@.len() && self.records@[i as int].username@ == username@,
                None => forall|i: int| 0 <= i < self.records@.len() ==> #[trigger] self.records@[i].username@ != username@,
            }),
    {
        let mut i: usize = 0;
        while i < self.records.len()
            invariant
                i <= self.records@.len(),
                forall|j: int| 0 <= j < i ==> #[trigger] self.records@[j].username@ != username@,
            decreases self.records@.len() - i,
        {
            if self.records[i].username == *username {
                return Some(i);
            }
            i = i + 1;
        }
        None
    }

    /// The position of the record with identity `identity`.
    fn find_identity(&self, identity: &String) -> (r: Option<usize>)
        ensures
            (match r {
                Some(i) => i < self.records@.len() && self.records@[i as int].user_uuid@ == identity@,
                None => forall|i: int| 0 <= i < self.records@.len() ==> #[trigger] self.records@[i].user_uuid@ != identity@,
            }),
    {
        let mut i: usize = 0;
        while i < self.records.len()
            invariant
                i <= self.records@.len(),
                forall|j: int| 0 <= j < i ==> #[trigger] self.records@[j].user_uuid@ != identity@,
            decreases self.records@.len() - i,
        {
            if self.records[i].user_uuid == *identity {
                return Some(i);
            }
            i = i + 1;
        }
        None
    }

    /// Files a new record for `username` with an identity and a password hash
    /// made beforehand. Refused, with nothing changed, when the username or
    /// the identity is taken.
    pub fn insert_user(&mut self, username: String, identity: String, password_hash: String) -> (r: Result<(), UserError>)
        requires
            old(self).wf(),
        ensures
            final(self).wf(),
            r == Err::<(), UserError>(UserError::DuplicateUsername) <==> old(self).accounts().contains_key(username@),
            r == Err::<(), UserError>(UserError::IdentityTaken) <==> !old(self).accounts().contains_key(username@)
                && identity_in_use(old(self).accounts(), identity@),
            r is Ok <==> !old(self).accounts().contains_key(username@) && !identity_in_use(old(self).accounts(), identity@),
            r is Ok ==> final(self).accounts() == old(self).accounts().insert(
                username@,
                Account { identity: identity@, password_hash: password_hash@ },
            ),
            r is Err ==> final(self).accounts() == old(self).accounts(),
    {
        let ghost before = self.model@;
        if let Some(i) = self.find_username(&username) {
            assert(before.contains_key(username@)) by {
                assert(self.records@[i as int].username@ == username@);
            }
            return Err(UserError::DuplicateUsername);
        }
        assert(!before.contains_key(username@));
        if let Some(i) = self.find_identity(&identity) {
            let ghost u = self.records@[i as int].username@;
            assert(self.model@.contains_key(u));
            assert(before.contains_key(u) && before[u].identity == identity@);
            return Err(UserError::IdentityTaken);
        }
        assert(!identity_in_use(before, identity@)) by {
            if identity_in_use(before, identity@) {
                let u = choose|u: Seq<char>| #[trigger] before.contains_key(u) && before[u].identity == identity@;
                let j = choose|j: int| 0 <= j < self.records@.len() && #[trigger] self.records@[j].username@ == u;
                assert(self.records@[j].user_uuid@ != identity@);
            }
        }
        let ghost account = Account { identity: identity@, password_hash: password_hash@ };
        let user = User { user_uuid: identity, username, password: password_hash };
        let ghost old_records = self.records@;
        self.records.push(user);
        self.model = Ghost(before.insert(user.username@, account));
        proof {
            let n = old_records.len() as int;
            assert(self.records@[n] == user);
            assert forall|i: int| 0 <= i < self.records@.len() implies #[trigger] self.model@.contains_key(
                self.records@[i].username@,
            ) && self.model@[self.records@[i].username@] == self.records@[i].account() by {
                if i < n {
                    assert(self.records@[i] == old_records[i]);
                }
            }
            assert forall|u: Seq<char>| #[trigger] self.model@.contains_key(u) implies exists|i: int|
                0 <= i < self.records@.len() && #[trigger] self.records@[i].username@ == u by {
                if u == user.username@ {
                    assert(self.records@[n].username@ == u);
                } else {
                    let j = choose|j: int| 0 <= j < old_records.len() && #[trigger] old_records[j].username@ == u;
                    assert(self.records@[j].username@ == u);
                }
            }
            assert forall|i: int, j: int| 0 <= i < j < self.records@.len() implies self.records@[i].username@
                != self.records@[j].username@ && self.records@[i].user_uuid@ != self.records@[j].user_uuid@ by {
                if j == n {
                    assert(self.records@[i] == old_records[i]);
                } else {
                    assert(self.records@[i] == old_records[i]);
                    assert(self.records@[j] == old_records[j]);
                }
            }
        }
        Ok(())
    }
}

impl Users for UsersImpl {
    closed spec fn wf(&self) -> bool {
        &&& self.model@.dom().finite()
        &&& self.model@.len() == self.records@.len()
        &&& forall|i: int|
            0 <= i < self.records@.len() ==> #[trigger] self.model@.contains_key(self.records@[i].username@)
                && self.model@[self.records@[i].username@] == self.records@[i].account()
        &&& forall|u: Seq<char>| #[trigger]
            self.model@.contains_key(u) ==> exists|i: int| 0 <= i < self.records@.len() && #[trigger] self.records@[i].username@ == u
        &&& forall|i: int, j: int|
            0 <= i < j < self.records@.len() ==> self.records@[i].username@ != self.records@[j].username@
                && self.records@[i].user_uuid@ != self.records@[j].user_uuid@
    }

    closed spec fn accounts(&self) -> Map<Seq<char>, Account> {
        self.model@
    }

    fn create_user(&mut self, username: String, password: String) -> (r: Result<(), UserError>) {
        if let Some(i) = self.find_username(&username) {
            assert(self.model@.contains_key(username@)) by {
                assert(self.records@[i as int].username@ == username@);
            }
            return Err(UserError::DuplicateUsername);
        }
        let salt = new_salt();
        let password_hash = match hash_with_salt(password.as_str(), &salt) {
            Ok(phc) => phc,
            Err(_) => return Err(UserError::HashingFailure),
        };
        let identity = random_id();
        let ghost before = self.model@;
        let ghost name = username@;
        let ghost account = Account { identity: identity@, password_hash: password_hash@ };
        let r = self.insert_user(username, identity, password_hash);
        if r.is_ok() {
            assert(self.model@.remove(name) =~= before);
            assert(self.model@[name] == account);
        }
        r
    }

    fn get_user_uuid(&self, username: String, password: String) -> (r: Option<String>) {
        match self.find_username(&username) {
            None => {
                assert(!self.model@.contains_key(username@));
                None
            },
            Some(i) => {
                let user = &self.records[i];
                assert(self.model@.contains_key(self.records@[i as int].username@));
                assert(self.model@[username@] == user.account());
                if check_password(password.as_str(), user.password.as_str()) {
                    Some(user.user_uuid.clone())
                } else {
                    None
                }
            },
        }
    }

    fn delete_user(&mut self, user_uuid: String) {
        let ghost before = self.model@;
        match self.find_identity(&user_uuid) {
            None => {
                assert(before =~= without_identity(before, user_uuid@)) by {
                    assert forall|u: Seq<char>| #[trigger] before.contains_key(u) implies before[u].identity
                        != user_uuid@ by {
                        let j = choose|j: int| 0 <= j < self.records@.len() && #[trigger] self.records@[j].username@ == u;
                        assert(self.records@[j].user_uuid@ != user_uuid@);
                    }
                }
            },
            Some(i) => {
                let ghost old_records = self.records@;
                let ghost name = old_records[i as int].username@;
                let removed = self.records.remove(i);
                self.model = Ghost(before.remove(removed.username@));
                proof {
                    let k = i as int;
                    assert forall|a: int| 0 <= a < self.records@.len() implies #[trigger] self.records@[a] == (
                    if a < k {
                        old_records[a]
                    } else {
                        old_records[a + 1]
                    }) by {}
                    assert forall|a: int| 0 <= a < self.records@.len() implies #[trigger] self.model@.contains_key(
                        self.records@[a].username@,
                    ) && self.model@[self.records@[a].username@] == self.records@[a].account() by {
                        if a < k {
                            assert(old_records[a].username@ != name);
                        } else {
                            assert(old_records[a + 1].username@ != name);
                        }
                    }
                    assert forall|u: Seq<char>| #[trigger] self.model@.contains_key(u) implies exists|a: int|
                        0 <= a < self.records@.len() && #[trigger] self.records@[a].username@ == u by {
                        let j = choose|j: int| 0 <= j < old_records.len() && #[trigger] old_records[j].username@ == u;
                        assert(j != k);
                        if j < k {
                            assert(self.records@[j].username@ == u);
                        } else {
                            assert(self.records@[j - 1].username@ == u);
                        }
                    }
                    assert forall|a: int, b: int| 0 <= a < b < self.records@.len() implies self.records@[a].username@
                        != self.records@[b].username@ && self.records@[a].user_uuid@ != self.records@[b].user_uuid@ by {
                        let a2 = if a < k { a } else { a + 1 };
                        let b2 = if b < k { b } else { b + 1 };
                        assert(a2 < b2);
                        assert(self.records@[a] == old_records[a2]);
                        assert(self.records@[b] == old_records[b2]);
                    }
                    assert forall|u: Seq<char>| #[trigger] before.contains_key(u) && u != name implies before[u].identity
                        != user_uuid@ by {
                        let j = choose|j: int| 0 <= j < old_records.len() && #[trigger] old_records[j].username@ == u;
                        assert(j != k);
                    }
                    assert(self.model@ =~= without_identity(before, user_uuid@));
                }
            },
        }
    }
}

/// A user who has just registered with `password` signs in with it, under
/// the non-empty identity the registration filed.
pub proof fn lemma_registered_user_signs_in(
    before: Map<Seq<char>, Account>,
    after: Map<Seq<char>, Account>,
    username: Seq<char>,
    password: Seq<char>,
)
    requires
        registered(before, after, username, password),
    ensures
        verified_identity(after, username, password) == Some(after[username].identity),
        after[username].identity.len() > 0,
{
}

/// A registered user does not sign in with a password that fails against
/// the stored hash.
pub proof fn lemma_wrong_password_rejected(accounts: Map<Seq<char>, Account>, username: Seq<char>, other: Seq<char>)
    requires
        accounts.contains_key(username),
        !password_verifies(other, accounts[username].password_hash),
    ensures
        verified_identity(accounts, username, other) is None,
{
}

impl Default for UsersImpl {
    fn default() -> (r: Self)
        ensures
            r.wf(),
            r.accounts() == Map::<Seq<char>, Account>::empty(),
    {
        UsersImpl::new()
    }
}

} // verus!
