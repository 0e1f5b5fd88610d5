//! The credential store: username to password-verifier records, plus the
//! derived public session token that authenticates a session without ever
//! putting the verifier on the wire.
//!
//! Each record holds the bcrypt verifier checked at login and a public
//! token, `bcrypt(username ++ verifier ++ common salt)`.  The cookie carries
//! the token; resolving a cookie looks the token up and never touches the
//! verifier.  Rotating the common salt recomputes every token and thereby
//! logs every session out at once.

use vstd::prelude::*;
use vstd::string::StrSliceExecFns;
use vstd::string::StringExecFns;

use rand::RngExt;

use crate::errors::AppError;
use crate::strutil::str_eq;

verus! {

/// What bcrypt's password check returns for a `(hash, password)` pair: a
/// deterministic function of the two arguments alone.
pub uninterp spec fn bcrypt_accepts(hash: Seq<char>, password: Seq<char>) -> bool;

/// Relies on bcrypt::verify: whether `password` matches the bcrypt hash
/// `hash`.  A malformed hash matches nothing.
#[verifier::external_body]
fn bcrypt_verify(password: &str, hash: &str) -> (r: bool)
    ensures
        r == bcrypt_accepts(hash@, password@),
{
    match bcrypt::verify(password, hash) {
        Ok(b) => b,
        Err(_) => false,
    }
}

/// Relies on bcrypt::hash: a freshly salted hash that bcrypt::verify
/// accepts for this password.
#[verifier::external_body]
fn bcrypt_hash(password: &str) -> (r: Option<String>)
    ensures
        r matches Some(h) ==> bcrypt_accepts(h@, password@),
{
    match bcrypt::hash(password, bcrypt::DEFAULT_COST) {
        Ok(h) => Some(h),
        Err(_) => None,
    }
}

/// Relies on rand's `Alphanumeric` distribution: sixteen random
/// alphanumeric characters.  Nothing is promised about which ones.
#[verifier::external_body]
fn random_salt() -> (r: String)
    ensures
        r@.len() == 16,
{
    let bytes = rand::rng().sample_iter(&rand::distr::Alphanumeric).take(16).collect::<Vec<u8>>();
    String::from_utf8_lossy(&bytes).to_string()
}

/// One stored user.
pub struct UserRecord {
    /// Unique, case-sensitive key.
    pub username: String,
    /// The bcrypt password verifier, checked only at login.
    pub private_hash: String,
    /// The derived session token carried by the cookie.
    pub public_hash: String,
}

/// The text whose bcrypt hash is a user's public token.
pub open spec fn token_input(username: Seq<char>, private_hash: Seq<char>, salt: Seq<char>) -> Seq<
    char,
> {
    username + private_hash + salt
}

/// The first record named `name`, if any.
pub open spec fn find_user(users: Seq<UserRecord>, name: Seq<char>) -> Option<UserRecord>
    decreases users.len(),
{
    if users.len() == 0 {
        None
    } else if users.first().username@ == name {
        Some(users.first())
    } else {
        find_user(users.drop_first(), name)
    }
}

/// The first record whose public token is `token`, if any.
pub open spec fn find_token(users: Seq<UserRecord>, token: Seq<char>) -> Option<UserRecord>
    decreases users.len(),
{
    if users.len() == 0 {
        None
    } else if users.first().public_hash@ == token {
        Some(users.first())
    } else {
        find_token(users.drop_first(), token)
    }
}

/// Post-state of a successful delete: one record named `name` is gone and
/// the rest stand unchanged, in order.
pub open spec fn removes_user(
    pre: Seq<UserRecord>,
    post: Seq<UserRecord>,
    name: Seq<char>,
) -> bool {
    exists|i: int|
        0 <= i < pre.len() && (#[trigger] pre[i]).username@ == name && post == pre.remove(i)
}

/// Post-state of a successful upsert: any old record named `name` is gone,
/// the rest stand unchanged in order, and `rec` was appended.
pub open spec fn replaces_user(
    pre: Seq<UserRecord>,
    post: Seq<UserRecord>,
    name: Seq<char>,
    rec: UserRecord,
) -> bool {
    ||| (find_user(pre, name) is None && post == pre.push(rec))
    ||| exists|i: int|
        0 <= i < pre.len() && (#[trigger] pre[i]).username@ == name && post == pre.remove(i).push(
            rec,
        )
}

proof fn lemma_find_user_found(users: Seq<UserRecord>, name: Seq<char>, i: int)
    requires
        0 <= i < users.len(),
        users[i].username@ == name,
        forall|h: int| 0 <= h < i ==> (#[trigger] users[h].username@) != name,
    ensures
        find_user(users, name) == Some(users[i]),
    decreases users.len(),
{
    if i == 0 {
    } else {
        assert(users[0].username@ != name);
        assert forall|h: int| 0 <= h < i - 1 implies (#[trigger] users.drop_first()[h].username@)
            != name by {
            assert(users.drop_first()[h] == users[h + 1]);
        }
        assert(users.drop_first()[i - 1] == users[i]);
        lemma_find_user_found(users.drop_first(), name, i - 1);
    }
}

proof fn lemma_find_user_none(users: Seq<UserRecord>, name: Seq<char>)
    requires
        forall|h: int| 0 <= h < users.len() ==> (#[trigger] users[h].username@) != name,
    ensures
        find_user(users, name) is None,
    decreases users.len(),
{
    if users.len() > 0 {
        assert forall|h: int|
            0 <= h < users.len() - 1 implies (#[trigger] users.drop_first()[h].username@)
            != name by {
            assert(users.drop_first()[h] == users[h + 1]);
        }
        lemma_find_user_none(users.drop_first(), name);
    }
}

proof fn lemma_find_token_found(users: Seq<UserRecord>, token: Seq<char>, i: int)
    requires
        0 <= i < users.len(),
        users[i].public_hash@ == token,
        forall|h: int| 0 <= h < i ==> (#[trigger] users[h].public_hash@) != token,
    ensures
        find_token(users, token) == Some(users[i]),
    decreases users.len(),
{
    if i == 0 {
    } else {
        assert(users[0].public_hash@ != token);
        assert forall|h: int|
            0 <= h < i - 1 implies (#[trigger] users.drop_first()[h].public_hash@) != token by {
            assert(users.drop_first()[h] == users[h + 1]);
        }
        assert(users.drop_first()[i - 1] == users[i]);
        lemma_find_token_found(users.drop_first(), token, i - 1);
    }
}

proof fn lemma_find_token_none(users: Seq<UserRecord>, token: Seq<char>)
    requires
        forall|h: int| 0 <= h < users.len() ==> (#[trigger] users[h].public_hash@) != token,
    ensures
        find_token(users, token) is None,
    decreases users.len(),
{
    if users.len() > 0 {
        assert forall|h: int|
            0 <= h < users.len() - 1 implies (#[trigger] users.drop_first()[h].public_hash@)
            != token by {
            assert(users.drop_first()[h] == users[h + 1]);
        }
        lemma_find_token_none(users.drop_first(), token);
    }
}

proof fn lemma_find_user_member(users: Seq<UserRecord>, name: Seq<char>)
    requires
        find_user(users, name) is Some,
    ensures
        ({
            let u = find_user(users, name).unwrap();
            u.username@ == name && exists|i: int| 0 <= i < users.len() && (#[trigger] users[i]) == u
        }),
    decreases users.len(),
{
    if users.len() > 0 {
        if users.first().username@ == name {
            assert(users[0] == find_user(users, name).unwrap());
        } else {
            lemma_find_user_member(users.drop_first(), name);
            let u = find_user(users, name).unwrap();
            let i = choose|i: int|
                0 <= i < users.drop_first().len() && (#[trigger] users.drop_first()[i]) == u;
            assert(users[i + 1] == u);
        }
    }
}

proof fn lemma_find_token_member(users: Seq<UserRecord>, token: Seq<char>)
    requires
        find_token(users, token) is Some,
    ensures
        ({
            let u = find_token(users, token).unwrap();
            u.public_hash@ == token && exists|i: int|
                0 <= i < users.len() && (#[trigger] users[i]) == u
        }),
    decreases users.len(),
{
    if users.len() > 0 {
        if users.first().public_hash@ == token {
            assert(users[0] == find_token(users, token).unwrap());
        } else {
            lemma_find_token_member(users.drop_first(), token);
            let u = find_token(users, token).unwrap();
            let i = choose|i: int|
                0 <= i < users.drop_first().len() && (#[trigger] users.drop_first()[i]) == u;
            assert(users[i + 1] == u);
        }
    }
}

proof fn lemma_find_token_of_member(users: Seq<UserRecord>, i: int)
    requires
        0 <= i < users.len(),
    ensures
        find_token(users, users[i].public_hash@) is Some,
    decreases users.len(),
{
    if users.first().public_hash@ == users[i].public_hash@ {
    } else {
        assert(i != 0);
        assert(users.drop_first()[i - 1] == users[i]);
        lemma_find_token_of_member(users.drop_first(), i - 1);
    }
}

/// The first index holding a record named `name`, if any.
#[verifier::spinoff_prover]
fn find_user_index(users: &Vec<UserRecord>, name: &str) -> (r: Option<usize>)
    ensures
        match r {
            Some(i) => {
                &&& i < users@.len()
                &&& users@[i as int].username@ == name@
                &&& find_user(users@, name@) == Some(users@[i as int])
            },
            None => find_user(users@, name@) is None,
        },
{
    let mut i: usize = 0;
    while i < users.len()
        invariant
            i <= users@.len(),
            forall|h: int| 0 <= h < i ==> (#[trigger] users@[h].username@) != name@,
        decreases users.len() - i,
    {
        if str_eq(users[i].username.as_str(), name) {
            proof {
                lemma_find_user_found(users@, name@, i as int);
            }
            return Some(i);
        }
        i += 1;
    }
    proof {
        lemma_find_user_none(users@, name@);
    }
    None
}

/// The first index holding a record with public token `token`, if any.
#[verifier::spinoff_prover]
fn find_token_index(users: &Vec<UserRecord>, token: &str) -> (r: Option<usize>)
    ensures
        match r {
            Some(i) => {
                &&& i < users@.len()
                &&& users@[i as int].public_hash@ == token@
                &&& find_token(users@, token@) == Some(users@[i as int])
            },
            None => find_token(users@, token@) is None,
        },
{
    let mut i: usize = 0;
    while i < users.len()
        invariant
            i <= users@.len(),
            forall|h: int| 0 <= h < i ==> (#[trigger] users@[h].public_hash@) != token@,
        decreases users.len() - i,
    {
        if str_eq(users[i].public_hash.as_str(), token) {
            proof {
                lemma_find_token_found(users@, token@, i as int);
            }
            return Some(i);
        }
        i += 1;
    }
    proof {
        lemma_find_token_none(users@, token@);
    }
    None
}

/// Whether a record other than `name`'s carries public token `token`.
fn other_has_token(users: &Vec<UserRecord>, name: &str, token: &str) -> (r: bool)
    ensures
        r == exists|i: int|
            0 <= i < users@.len() && (#[trigger] users@[i]).public_hash@ == token@
                && users@[i].username@ != name@,
{
    let mut i: usize = 0;
    while i < users.len()
        invariant
            i <= users@.len(),
            forall|h: int|
                0 <= h < i ==> !((#[trigger] users@[h]).public_hash@ == token@
                    && users@[h].username@ != name@),
        decreases users.len() - i,
    {
        if str_eq(users[i].public_hash.as_str(), token) && !str_eq(
            users[i].username.as_str(),
            name,
        ) {
            proof {
                assert(users@[i as int].public_hash@ == token@ && users@[i as int].username@
                    != name@);
            }
            return true;
        }
        i += 1;
    }
    false
}

/// `username ++ private_hash ++ salt`, the text hashed into the token.
fn make_token_input(username: &str, private_hash: &str, salt: &str) -> (r: String)
    ensures
        r@ == token_input(username@, private_hash@, salt@),
{
    let mut r = username.to_owned();
    r.append(private_hash);
    r.append(salt);
    proof {
        assert(r@ =~= token_input(username@, private_hash@, salt@));
    }
    r
}

/// The in-memory user table, with its process-wide common salt.
pub struct UsersConfig {
    common_salt: String,
    users: Vec<UserRecord>,
}

impl UsersConfig {
    /// The common salt, for specification purposes.
    pub closed spec fn salt(&self) -> Seq<char> {
        self.common_salt@
    }

    /// The stored records, for specification purposes.
    pub closed spec fn users_seq(&self) -> Seq<UserRecord> {
        self.users@
    }

    /// Store well-formedness: usernames are unique keys, and public tokens
    /// are pairwise distinct, so the token-to-user lookup is a function.
    pub open spec fn wf(&self) -> bool {
        &&& forall|i: int, j: int|
            0 <= i < j < self.users_seq().len() ==> (#[trigger] self.users_seq()[i].username@) != (
            #[trigger] self.users_seq()[j].username@)
        &&& forall|i: int, j: int|
            0 <= i < j < self.users_seq().len() ==> (#[trigger] self.users_seq()[i].public_hash@)
                != (#[trigger] self.users_seq()[j].public_hash@)
    }

    /// An empty store with a fresh random common salt.
    pub fn new() -> (r: Self)
        ensures
            r.wf(),
            r.users_seq().len() == 0,
            r.salt().len() == 16,
    {
        UsersConfig { common_salt: random_salt(), users: Vec::new() }
    }

    /// Rebuilds a store from its persisted form: the common salt (a fresh
    /// one is drawn when the persisted one is empty) and the
    /// `(username, password verifier)` pairs.  Each public token is
    /// recomputed from the verifier and the salt.  Duplicate usernames, a
    /// hashing failure, or a (negligibly likely) token collision are
    /// refused, leaving no store.
    #[verifier::spinoff_prover]
    #[verifier::rlimit(50)]
    pub fn from_entries(salt: String, entries: &Vec<(String, String)>) -> (r: Result<
        Self,
        AppError,
    >)
        ensures
            r matches Ok(c) ==> {
                &&& c.wf()
                &&& salt@.len() > 0 ==> c.salt() == salt@
                &&& c.salt().len() > 0
                &&& c.users_seq().len() == entries@.len()
                &&& forall|i: int|
                    0 <= i < entries@.len() ==> {
                        &&& (#[trigger] c.users_seq()[i]).username@ == entries@[i].0@
                        &&& c.users_seq()[i].private_hash@ == entries@[i].1@
                        &&& bcrypt_accepts(
                            c.users_seq()[i].public_hash@,
                            token_input(entries@[i].0@, entries@[i].1@, c.salt()),
                        )
                    }
            },
    {
        let common_salt = if salt.as_str().unicode_len() == 0 {
            random_salt()
        } else {
            salt
        };
        let mut users: Vec<UserRecord> = Vec::new();
        let mut i: usize = 0;
        while i < entries.len()
            invariant
                i <= entries@.len(),
                users@.len() == i,
                common_salt@.len() > 0,
                forall|p: int|
                    0 <= p < i ==> {
                        &&& (#[trigger] users@[p]).username@ == entries@[p].0@
                        &&& users@[p].private_hash@ == entries@[p].1@
                        &&& bcrypt_accepts(
                            users@[p].public_hash@,
                            token_input(entries@[p].0@, entries@[p].1@, common_salt@),
                        )
                    },
                forall|p: int, q: int|
                    0 <= p < q < users@.len() ==> (#[trigger] users@[p].username@) != (
                    #[trigger] users@[q].username@),
                forall|p: int, q: int|
                    0 <= p < q < users@.len() ==> (#[trigger] users@[p].public_hash@) != (
                    #[trigger] users@[q].public_hash@),
            decreases entries.len() - i,
        {
            let username = entries[i].0.clone();
            let private_hash = entries[i].1.clone();
            if find_user_index(&users, username.as_str()).is_some() {
                return Err(
                    AppError::ConfigurationError("duplicate username in user table".to_owned()),
                );
            }
            let input = make_token_input(
                username.as_str(),
                private_hash.as_str(),
                common_salt.as_str(),
            );
            let public_hash = match bcrypt_hash(input.as_str()) {
                Some(h) => h,
                None => {
                    return Err(AppError::HashingError);
                },
            };
            if find_token_index(&users, public_hash.as_str()).is_some() {
                return Err(
                    AppError::ConfigurationError("derived token collision".to_owned()),
                );
            }
            let ghost users0 = users@;
            users.push(UserRecord { username, private_hash, public_hash });
            proof {
                assert forall|p: int, q: int|
                    0 <= p < q < users@.len() implies (#[trigger] users@[p].username@) != (
                #[trigger] users@[q].username@) by {
                    if q < users0.len() {
                        assert(users@[p] == users0[p] && users@[q] == users0[q]);
                    } else {
                        assert(users@[p] == users0[p]);
                        if users0[p].username@ == users@[q].username@ {
                            assert(find_user(users0, users@[q].username@) is Some) by {
                                lemma_find_user_of_member(users0, p);
                            }
                        }
                    }
                }
                assert forall|p: int, q: int|
                    0 <= p < q < users@.len() implies (#[trigger] users@[p].public_hash@) != (
                #[trigger] users@[q].public_hash@) by {
                    if q < users0.len() {
                        assert(users@[p] == users0[p] && users@[q] == users0[q]);
                    } else {
                        assert(users@[p] == users0[p]);
                        if users0[p].public_hash@ == users@[q].public_hash@ {
                            assert(find_token(users0, users@[q].public_hash@) is Some) by {
                                lemma_find_token_of_member(users0, p);
                            }
                        }
                    }
                }
                assert forall|p: int|
                    0 <= p < i + 1 implies {
                        &&& (#[trigger] users@[p]).username@ == entries@[p].0@
                        &&& users@[p].private_hash@ == entries@[p].1@
                        &&& bcrypt_accepts(
                            users@[p].public_hash@,
                            token_input(entries@[p].0@, entries@[p].1@, common_salt@),
                        )
                    } by {
                    if p < i {
                        assert(users@[p] == users0[p]);
                    }
                }
            }
            i += 1;
        }
        Ok(UsersConfig { common_salt, users })
    }

    /// The usernames of every stored record, in storage order.
    #[verifier::spinoff_prover]
    pub fn list_users(&self) -> (r: Vec<String>)
        ensures
            r@.len() == self.users_seq().len(),
            forall|i: int|
                0 <= i < r@.len() ==> (#[trigger] r@[i]@) == self.users_seq()[i].username@,
    {
        let mut r: Vec<String> = Vec::new();
        let mut i: usize = 0;
        while i < self.users.len()
            invariant
                i <= self.users@.len(),
                r@.len() == i,
                forall|h: int| 0 <= h < i ==> (#[trigger] r@[h]@) == self.users@[h].username@,
            decreases self.users.len() - i,
        {
            r.push(self.users[i].username.clone());
            i += 1;
        }
        r
    }

    /// Whether the store holds no users.
    pub fn is_empty(&self) -> (r: bool)
        ensures
            r == (self.users_seq().len() == 0),
    {
        self.users.len() == 0
    }

    /// Whether a record named `username` exists.
    pub fn contains_user(&self, username: &str) -> (r: bool)
        ensures
            r == (find_user(self.users_seq(), username@) is Some),
    {
        find_user_index(&self.users, username).is_some()
    }

    /// Checks a login attempt.  The check fails closed: an unknown username
    /// and a wrong password both yield `false`, with nothing in the result
    /// telling them apart.
    pub fn verify_password(&self, username: &str, password: &str) -> (r: bool)
        ensures
            r == match find_user(self.users_seq(), username@) {
                Some(u) => bcrypt_accepts(u.private_hash@, password@),
                None => false,
            },
    {
        match find_user_index(&self.users, username) {
            Some(i) => bcrypt_verify(password, self.users[i].private_hash.as_str()),
            None => false,
        }
    }

    /// Issues the session token for `username`: the stored public token,
    /// or nothing for an unknown user.
    pub fn get_public_hash(&self, username: &str) -> (r: Option<&String>)
        ensures
            match r {
                Some(h) => find_user(self.users_seq(), username@) matches Some(u) && h@
                    == u.public_hash@,
                None => find_user(self.users_seq(), username@) is None,
            },
    {
        match find_user_index(&self.users, username) {
            Some(i) => Some(&self.users[i].public_hash),
            None => None,
        }
    }

    /// Resolves a session token back to its user.  An empty, garbled or
    /// stale token resolves to nobody; that is an anonymous session, not an
    /// error.
    pub fn get_username_from_public_hash(&self, public_hash: &str) -> (r: Option<&String>)
        ensures
            match r {
                Some(n) => find_token(self.users_seq(), public_hash@) matches Some(u) && n@
                    == u.username@,
                None => find_token(self.users_seq(), public_hash@) is None,
            },
    {
        match find_token_index(&self.users, public_hash) {
            Some(i) => Some(&self.users[i].username),
            None => None,
        }
    }

    /// Adds a user or replaces their password.  A fresh verifier and a
    /// fresh public token are derived; any old record for the name is
    /// dropped, so the stale token no longer resolves.  On any failure —
    /// the hashing backend refusing, or a (negligibly likely) collision of
    /// the derived token with another user's — the store is unchanged.
    #[verifier::spinoff_prover]
    #[verifier::rlimit(50)]
    pub fn add_or_update_user(&mut self, username: String, password: &str) -> (r: Result<
        (),
        AppError,
    >)
        requires
            old(self).wf(),
        ensures
            final(self).wf(),
            final(self).salt() == old(self).salt(),
            match r {
                Ok(()) => exists|rec: UserRecord|
                    {
                        &&& (#[trigger] rec.username@) == username@
                        &&& bcrypt_accepts(rec.private_hash@, password@)
                        &&& bcrypt_accepts(
                            rec.public_hash@,
                            token_input(username@, rec.private_hash@, old(self).salt()),
                        )
                        &&& replaces_user(
                            old(self).users_seq(),
                            final(self).users_seq(),
                            username@,
                            rec,
                        )
                        &&& find_user(final(self).users_seq(), username@) == Some(rec)
                        &&& find_token(final(self).users_seq(), rec.public_hash@) == Some(rec)
                    },
                Err(_) => *final(self) == *old(self),
            },
    {
        let private_hash = match bcrypt_hash(password) {
            Some(h) => h,
            None => {
                return Err(AppError::HashingError);
            },
        };
        let input = make_token_input(
            username.as_str(),
            private_hash.as_str(),
            self.common_salt.as_str(),
        );
        let public_hash = match bcrypt_hash(input.as_str()) {
            Some(h) => h,
            None => {
                return Err(AppError::HashingError);
            },
        };
        if other_has_token(&self.users, username.as_str(), public_hash.as_str()) {
            return Err(AppError::ConfigurationError("derived token collision".to_owned()));
        }
        let ghost pre = self.users@;
        let ghost namev = username@;
        let ghost rec_private = private_hash@;
        let ghost rec_public = public_hash@;
        let removed = find_user_index(&self.users, username.as_str());
        let ghost mid: Seq<UserRecord>;
        match removed {
            Some(i) => {
                self.users.remove(i);
                proof {
                    mid = pre.remove(i as int);
                }
            },
            None => {
                proof {
                    mid = pre;
                }
            },
        }
        let rec = UserRecord { username, private_hash, public_hash };
        let ghost recv = rec;
        self.users.push(rec);
        proof {
            let post = self.users@;
            assert(pre == old(self).users_seq());
            assert(post == final(self).users_seq());
            assert(post == mid.push(recv));
            // Every remaining old record keeps its index or shifts down by
            // one; none is named `namev`, and none carries the new token.
            assert forall|h: int| 0 <= h < mid.len() implies (#[trigger] mid[h]).username@ != namev
                && mid[h].public_hash@ != rec_public by {
                let oh: int = match removed {
                    Some(i) => if h < i as int { h } else { h + 1 },
                    None => h,
                };
                assert(mid[h] == pre[oh]);
                if pre[oh].username@ == namev {
                    match removed {
                        Some(i) => {
                            assert(pre[i as int].username@ == namev);
                            assert(oh != i as int);
                            assert(false);
                        },
                        None => {
                            lemma_find_user_of_member(pre, oh);
                            assert(false);
                        },
                    }
                }
                assert(pre[oh].username@ != namev);
                if pre[oh].public_hash@ == rec_public {
                    assert(pre[oh].username@ == namev);
                    assert(false);
                }
            }
            assert forall|p: int, q: int|
                0 <= p < q < post.len() implies (#[trigger] post[p].username@) != (
            #[trigger] post[q].username@) by {
                if q < mid.len() {
                    assert(post[p] == mid[p] && post[q] == mid[q]);
                    lemma_unique_after_remove_or_keep(pre, mid, removed, p, q);
                } else {
                    assert(post[p] == mid[p] && post[q] == recv);
                }
            }
            assert forall|p: int, q: int|
                0 <= p < q < post.len() implies (#[trigger] post[p].public_hash@) != (
            #[trigger] post[q].public_hash@) by {
                if q < mid.len() {
                    assert(post[p] == mid[p] && post[q] == mid[q]);
                    lemma_unique_after_remove_or_keep(pre, mid, removed, p, q);
                } else {
                    assert(post[p] == mid[p] && post[q] == recv);
                }
            }
            lemma_find_user_found(post, namev, post.len() - 1);
            lemma_find_token_found(post, rec_public, post.len() - 1);
            assert(replaces_user(pre, post, namev, recv));
            assert(recv.username@ == namev);
        }
        Ok(())
    }

    /// Deletes a user, removing both the forward record and — with it —
    /// the reverse token mapping.  An unknown username is refused and the
    /// store is unchanged.
    #[verifier::spinoff_prover]
    pub fn delete_user(&mut self, username: &str) -> (r: Result<(), AppError>)
        requires
            old(self).wf(),
        ensures
            final(self).wf(),
            final(self).salt() == old(self).salt(),
            match r {
                Ok(()) => {
                    &&& removes_user(old(self).users_seq(), final(self).users_seq(), username@)
                    &&& find_user(final(self).users_seq(), username@) is None
                    &&& (find_user(old(self).users_seq(), username@) matches Some(u) && find_token(
                        final(self).users_seq(),
                        u.public_hash@,
                    ) is None)
                },
                Err(_) => {
                    &&& *final(self) == *old(self)
                    &&& find_user(old(self).users_seq(), username@) is None
                },
            },
    {
        let ghost pre = self.users@;
        match find_user_index(&self.users, username) {
            Some(i) => {
                let ghost u = pre[i as int];
                self.users.remove(i);
                proof {
                    let post = self.users@;
                    assert(pre == old(self).users_seq());
                    assert(post == final(self).users_seq());
                    assert(post == pre.remove(i as int));
                    assert forall|h: int|
                        0 <= h < post.len() implies (#[trigger] post[h]).username@ != username@
                        && post[h].public_hash@ != u.public_hash@ by {
                        let oh: int = if h < i as int {
                            h
                        } else {
                            h + 1
                        };
                        assert(post[h] == pre[oh]);
                        if pre[oh].username@ == username@ {
                            assert(pre[i as int].username@ == username@);
                        }
                        if pre[oh].public_hash@ == u.public_hash@ {
                            assert(pre[i as int].public_hash@ == u.public_hash@);
                        }
                    }
                    assert forall|p: int, q: int|
                        0 <= p < q < post.len() implies (#[trigger] post[p].username@) != (
                    #[trigger] post[q].username@) && (#[trigger] post[p].public_hash@) != (
                    #[trigger] post[q].public_hash@) by {
                        lemma_unique_after_remove_or_keep(pre, post, Some(i), p, q);
                    }
                    assert forall|h: int|
                        0 <= h < post.len() implies (#[trigger] post[h].username@)
                        != username@ by {
                        assert(post[h].username@ != username@);
                    }
                    lemma_find_user_none(post, username@);
                    assert forall|h: int|
                        0 <= h < post.len() implies (#[trigger] post[h].public_hash@)
                        != u.public_hash@ by {
                        assert(post[h].public_hash@ != u.public_hash@);
                    }
                    lemma_find_token_none(post, u.public_hash@);
                }
                Ok(())
            },
            None => Err(
                AppError::ConfigurationError("user not found in the user table".to_owned()),
            ),
        }
    }

    /// Rotates the common salt: a fresh one is drawn and every public token
    /// is recomputed, which invalidates every outstanding session cookie at
    /// once.  Usernames and password verifiers are untouched; on any
    /// failure the store is unchanged.
    #[verifier::spinoff_prover]
    pub fn rotate_common_salt(&mut self) -> (r: Result<(), AppError>)
        requires
            old(self).wf(),
        ensures
            final(self).wf(),
            match r {
                Ok(()) => {
                    &&& final(self).salt().len() == 16
                    &&& final(self).users_seq().len() == old(self).users_seq().len()
                    &&& forall|i: int|
                        0 <= i < old(self).users_seq().len() ==> {
                            &&& (#[trigger] final(self).users_seq()[i]).username@ == old(
                                self,
                            ).users_seq()[i].username@
                            &&& final(self).users_seq()[i].private_hash@ == old(
                                self,
                            ).users_seq()[i].private_hash@
                            &&& bcrypt_accepts(
                                final(self).users_seq()[i].public_hash@,
                                token_input(
                                    final(self).users_seq()[i].username@,
                                    final(self).users_seq()[i].private_hash@,
                                    final(self).salt(),
                                ),
                            )
                        }
                },
                Err(_) => *final(self) == *old(self),
            },
    {
        let new_salt = random_salt();
        let users = &self.users;
        let mut entries: Vec<(String, String)> = Vec::new();
        let mut i: usize = 0;
        while i < users.len()
            invariant
                i <= users@.len(),
                entries@.len() == i,
                forall|h: int|
                    0 <= h < i ==> (#[trigger] entries@[h].0@) == users@[h].username@
                        && entries@[h].1@ == users@[h].private_hash@,
            decreases users.len() - i,
        {
            entries.push((users[i].username.clone(), users[i].private_hash.clone()));
            i += 1;
        }
        proof {
            assert(users@ == old(self).users@);
        }
        match Self::from_entries(new_salt, &entries) {
            Ok(c) => {
                *self = c;
                Ok(())
            },
            Err(e) => Err(e),
        }
    }

    /// The persisted form of the table: its `(username, verifier)` pairs,
    /// in storage order.
    #[verifier::spinoff_prover]
    pub fn export_entries(&self) -> (r: Vec<(String, String)>)
        ensures
            r@.len() == self.users_seq().len(),
            forall|i: int|
                0 <= i < r@.len() ==> (#[trigger] r@[i].0@) == self.users_seq()[i].username@
                    && r@[i].1@ == self.users_seq()[i].private_hash@,
    {
        let users = &self.users;
        let mut r: Vec<(String, String)> = Vec::new();
        let mut i: usize = 0;
        while i < users.len()
            invariant
                i <= users@.len(),
                r@.len() == i,
                forall|h: int|
                    0 <= h < i ==> (#[trigger] r@[h].0@) == users@[h].username@ && r@[h].1@
                        == users@[h].private_hash@,
            decreases users.len() - i,
        {
            r.push((users[i].username.clone(), users[i].private_hash.clone()));
            i += 1;
        }
        r
    }

    /// The common salt as stored, for persistence alongside the entries.
    pub fn export_salt(&self) -> (r: String)
        ensures
            r@ == self.salt(),
    {
        self.common_salt.clone()
    }

    /// Session tokens round-trip: for any registered user in a well-formed
    /// store, resolving the token that `get_public_hash` issues yields that
    /// same user back.
    pub proof fn lemma_token_round_trip(store: UsersConfig, name: Seq<char>)
        requires
            store.wf(),
            find_user(store.users_seq(), name) is Some,
        ensures
            ({
                let u = find_user(store.users_seq(), name).unwrap();
                find_token(store.users_seq(), u.public_hash@) == Some(u) && u.username@ == name
            }),
    {
        let users = store.users_seq();
        let u = find_user(users, name).unwrap();
        lemma_find_user_member(users, name);
        let i = choose|i: int| 0 <= i < users.len() && (#[trigger] users[i]) == u;
        lemma_find_token_of_member(users, i);
        lemma_find_token_member(users, u.public_hash@);
        let v = find_token(users, u.public_hash@).unwrap();
        let j = choose|j: int| 0 <= j < users.len() && (#[trigger] users[j]) == v;
        if i != j {
            assert(users[i].public_hash@ == users[j].public_hash@);
        }
        assert(v == u);
    }

    /// Deleting a user removes both mappings: once a record named `name`
    /// has been removed from a well-formed store, neither the name nor the
    /// user's old session token resolves any more.
    pub proof fn lemma_resolve_after_delete(
        pre: UsersConfig,
        post: UsersConfig,
        name: Seq<char>,
        i: int,
    )
        requires
            pre.wf(),
            0 <= i < pre.users_seq().len(),
            pre.users_seq()[i].username@ == name,
            post.users_seq() == pre.users_seq().remove(i),
        ensures
            find_user(post.users_seq(), name) is None,
            find_token(post.users_seq(), pre.users_seq()[i].public_hash@) is None,
    {
        let pu = pre.users_seq();
        let po = post.users_seq();
        let token = pu[i].public_hash@;
        assert forall|h: int| 0 <= h < po.len() implies (#[trigger] po[h].username@) != name by {
            let oh: int = if h < i {
                h
            } else {
                h + 1
            };
            assert(po[h] == pu[oh]);
            if pu[oh].username@ == name {
                assert(pu[i].username@ == name);
            }
        }
        lemma_find_user_none(po, name);
        assert forall|h: int| 0 <= h < po.len() implies (#[trigger] po[h].public_hash@)
            != token by {
            let oh: int = if h < i {
                h
            } else {
                h + 1
            };
            assert(po[h] == pu[oh]);
            if pu[oh].public_hash@ == token {
                assert(pu[i].public_hash@ == token);
            }
        }
        lemma_find_token_none(po, token);
    }
}

proof fn lemma_find_user_of_member(users: Seq<UserRecord>, i: int)
    requires
        0 <= i < users.len(),
    ensures
        find_user(users, users[i].username@) is Some,
    decreases users.len(),
{
    if users.first().username@ == users[i].username@ {
    } else {
        assert(i != 0);
        assert(users.drop_first()[i - 1] == users[i]);
        lemma_find_user_of_member(users.drop_first(), i - 1);
    }
}

/// Pairwise distinctness survives removing one element (or none).
proof fn lemma_unique_after_remove_or_keep(
    pre: Seq<UserRecord>,
    mid: Seq<UserRecord>,
    removed: Option<usize>,
    p: int,
    q: int,
)
    requires
        match removed {
            Some(i) => (i as int) < pre.len() && mid == pre.remove(i as int),
            None => mid == pre,
        },
        0 <= p < q < mid.len(),
        forall|a: int, b: int|
            0 <= a < b < pre.len() ==> (#[trigger] pre[a].username@) != (
            #[trigger] pre[b].username@),
        forall|a: int, b: int|
            0 <= a < b < pre.len() ==> (#[trigger] pre[a].public_hash@) != (
            #[trigger] pre[b].public_hash@),
    ensures
        mid[p].username@ != mid[q].username@,
        mid[p].public_hash@ != mid[q].public_hash@,
{
    match removed {
        Some(i) => {
            let op: int = if p < i as int {
                p
            } else {
                p + 1
            };
            let oq: int = if q < i as int {
                q
            } else {
                q + 1
            };
            assert(mid[p] == pre[op]);
            assert(mid[q] == pre[oq]);
            assert(pre[op].username@ != pre[oq].username@);
            assert(pre[op].public_hash@ != pre[oq].public_hash@);
        },
        None => {
            assert(pre[p].username@ != pre[q].username@);
            assert(pre[p].public_hash@ != pre[q].public_hash@);
        },
    }
}

} // verus!
