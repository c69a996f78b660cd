//! The credential store: usernames bound to identities and salted password
//! hashes.

use crate::secrets::{fresh_salt, hash_password, password_matches, random_uuid, verify_password};
use vstd::prelude::*;

verus! {

/// What a credential store holds: for each username, the identity of its
/// account and the hash of its password.
pub type CredentialMap = Map<Seq<char>, (Seq<char>, Seq<char>)>;

/// Why a credential was not created.
#[derive(Debug, Clone, Copy, PartialEq, Eq, Structural)]
pub enum CreateError {
    /// A credential with this username already exists.
    UsernameTaken,
    /// The password could not be hashed.
    HashingFailure,
    /// The freshly drawn identity had been handed out before.
    IdentityCollision,
}

/// `creds` holds `username`, and `password` verifies against its hash.
pub open spec fn accepts(creds: CredentialMap, username: Seq<char>, password: Seq<char>) -> bool {
    creds.contains_key(username) && password_matches(password, creds[username].1)
}

/// `after` is `before` with one new credential for `username`, whose hash
/// verifies `password`.
pub open spec fn registered(
    before: CredentialMap,
    after: CredentialMap,
    username: Seq<char>,
    password: Seq<char>,
) -> bool {
    &&& !before.contains_key(username)
    &&& after.contains_key(username)
    &&& password_matches(password, after[username].1)
    &&& after.remove(username) == before
}

/// The credentials of `creds` whose identity is not `identity`.
pub open spec fn without_identity(creds: CredentialMap, identity: Seq<char>) -> CredentialMap {
    Map::new(|u: Seq<char>| creds.contains_key(u) && creds[u].0 != identity, |u: Seq<char>| creds[u])
}

/// A credential store, whatever backs it.
pub trait Users {
    /// The credentials held, by username.
    spec fn credentials(&self) -> CredentialMap;

    /// Every identity this store has ever handed out, deleted ones included.
    spec fn issued(&self) -> Set<Seq<char>>;

    /// The store's internal consistency.
    spec fn inv(&self) -> bool;

    /// Registers `username` with a salted hash of `password` and a fresh
    /// identity. Fails with `UsernameTaken`, changing nothing, if the username
    /// is held; any failure leaves the store as it was. Usernames compare
    /// case-sensitively, and empty usernames and passwords are accepted like
    /// any other.
    fn create_user(&mut self, username: String, password: String) -> (r: Result<(), CreateError>)
        requires
            old(self).inv(),
        ensures
            final(self).inv(),
            (r == Err::<(), CreateError>(CreateError::UsernameTaken)) <==> old(self).credentials().contains_key(username@),
            r is Err ==> final(self).credentials() == old(self).credentials() && final(self).issued() == old(self).issued(),
            r is Ok ==> registered(old(self).credentials(), final(self).credentials(), username@, password@),
            r is Ok ==> !old(self).issued().contains(final(self).credentials()[username@].0),
            r is Ok ==> final(self).issued() == old(self).issued().insert(final(self).credentials()[username@].0),
    ;

    /// The identity of `username`, if it is registered and `password`
    /// verifies against its hash.
    fn get_user_uuid(&self, username: String, password: String) -> (r: Option<String>)
        requires
            self.inv(),
        ensures
            r is Some <==> accepts(self.credentials(), username@, password@),
            r is Some ==> r->Some_0@ == self.credentials()[username@].0,
    ;

    /// Removes the credential of the identity `user_uuid`, if there is one.
    fn delete_user(&mut self, user_uuid: String)
        requires
            old(self).inv(),
        ensures
            final(self).inv(),
            final(self).credentials() == without_identity(old(self).credentials(), user_uuid@),
            final(self).issued() == old(self).issued(),
    ;
}

/// One stored credential.
#[derive(Clone)]
pub struct User {
    user_uuid: String,
    username: String,
    password: String,
}

/// An in-memory credential store.
pub struct UsersImpl {
    users: Vec<User>,
    issued: Vec<String>,
    model: Ghost<CredentialMap>,
}

impl UsersImpl {
    /// Each stored record is in the model, and the model has no other entry.
    pub closed spec fn records_match(&self) -> bool {
        &&& forall|i: int|
            0 <= i < self.users@.len() ==> #[trigger] self.model@.contains_key(self.users@[i].username@)
                && self.model@[self.users@[i].username@] == (self.users@[i].user_uuid@, self.users@[i].password@)
        &&& forall|u: Seq<char>| #[trigger]
            self.model@.contains_key(u) ==> exists|i: int| 0 <= i < self.users@.len() && self.users@[i].username@ == u
        &&& self.model@.dom().finite()
        &&& self.model@.dom().len() == self.users@.len()
    }

    /// No two records share a username or an identity, and every identity
    /// in use was recorded as issued.
    pub closed spec fn records_unique(&self) -> bool {
        &&& forall|i: int, j: int|
            0 <= i < self.users@.len() && 0 <= j < self.users@.len()
                && #[trigger] self.users@[i].username@ == #[trigger] self.users@[j].username@ ==> i == j
        &&& forall|i: int, j: int|
            0 <= i < self.users@.len() && 0 <= j < self.users@.len()
                && #[trigger] self.users@[i].user_uuid@ == #[trigger] self.users@[j].user_uuid@ ==> i == j
        &&& forall|i: int| 0 <= i < self.users@.len() ==> self.issued().contains(#[trigger] self.users@[i].user_uuid@)
    }

    /// The number of credentials held.
    pub fn len(&self) -> (r: usize)
        requires
            self.inv(),
        ensures
            r == self.credentials().len(),
    {
        self.users.len()
    }

    /// Whether no credential is held.
    pub fn is_empty(&self) -> (r: bool)
        requires
            self.inv(),
        ensures
            r == (self.credentials().len() == 0),
    {
        self.users.len() == 0
    }

    fn find_username(&self, username: &String) -> (r: Option<usize>)
        ensures
            r is Some ==> r->Some_0 < self.users@.len() && self.users@[r->Some_0 as int].username@ == username@,
            r is None ==> forall|i: int| 0 <= i < self.users@.len() ==> self.users@[i].username@ != username@,
    {
        let mut i: usize = 0;
        while i < self.users.len()
            invariant
                i <= self.users@.len(),
                forall|k: int| 0 <= k < i ==> self.users@[k].username@ != username@,
            decreases self.users@.len() - i,
        {
            if self.users[i].username == *username {
                return Some(i);
            }
            i += 1;
        }
        None
    }

    fn find_identity(&self, user_uuid: &String) -> (r: Option<usize>)
        ensures
            r is Some ==> r->Some_0 < self.users@.len() && self.users@[r->Some_0 as int].user_uuid@ == user_uuid@,
            r is None ==> forall|i: int| 0 <= i < self.users@.len() ==> self.users@[i].user_uuid@ != user_uuid@,
    {
        let mut i: usize = 0;
        while i < self.users.len()
            invariant
                i <= self.users@.len(),
                forall|k: int| 0 <= k < i ==> self.users@[k].user_uuid@ != user_uuid@,
            decreases self.users@.len() - i,
        {
            if self.users[i].user_uuid == *user_uuid {
                return Some(i);
            }
            i += 1;
        }
        None
    }

    fn was_issued(&self, user_uuid: &String) -> (r: bool)
        ensures
            r == self.issued().contains(user_uuid@),
    {
        let mut i: usize = 0;
        while i < self.issued.len()
            invariant
                i <= self.issued@.len(),
                forall|k: int| 0 <= k < i ==> self.issued@[k]@ != user_uuid@,
            decreases self.issued@.len() - i,
        {
            if self.issued[i] == *user_uuid {
                assert(self.issued@[i as int]@ == user_uuid@);
                return true;
            }
            i += 1;
        }
        false
    }
}


impl UsersImpl {
    /// Stores a credential for `username` with the given identity and
    /// password hash. Fails with `UsernameTaken` if the username is held, else
    /// with `IdentityCollision` if the identity was ever handed out; a
    /// failure changes nothing.
    pub fn insert_credential(&mut self, username: String, user_uuid: String, password_hash: String) -> (r: Result<(), CreateError>)
        requires
            old(self).inv(),
        ensures
            final(self).inv(),
            old(self).credentials().contains_key(username@) ==> r == Err::<(), CreateError>(CreateError::UsernameTaken),
            !old(self).credentials().contains_key(username@) && old(self).issued().contains(user_uuid@) ==> r == Err::<(), CreateError>(CreateError::IdentityCollision),
            !old(self).credentials().contains_key(username@) && !old(self).issued().contains(user_uuid@) ==> r is Ok,
            r is Err ==> final(self).credentials() == old(self).credentials() && final(self).issued() == old(self).issued(),
            r is Ok ==> final(self).credentials() == old(self).credentials().insert(username@, (user_uuid@, password_hash@)),
            r is Ok ==> final(self).issued() == old(self).issued().insert(user_uuid@),
    {
        if self.find_username(&username).is_some() {
            return Err(CreateError::UsernameTaken);
        }
        if self.was_issued(&user_uuid) {
            return Err(CreateError::IdentityCollision);
        }
        proof {
            assert(!self.model@.contains_key(username@));
            assert forall|i: int| 0 <= i < self.users@.len() implies self.users@[i].user_uuid@ != user_uuid@ by {
                assert(self.issued().contains(self.users@[i].user_uuid@));
            }
        }
        let ghost old_issued = self.issued();
        let ghost new_model = self.model@.insert(username@, (user_uuid@, password_hash@));
        self.issued.push(user_uuid.clone());
        let user = User { user_uuid, username, password: password_hash };
        self.users.push(user);
        self.model = Ghost(new_model);
        proof {
            let n = self.users@.len() - 1;
            assert(self.issued() =~= old_issued.insert(self.users@[n].user_uuid@)) by {
                assert(self.issued@.last()@ == self.users@[n].user_uuid@);
                assert forall|id: Seq<char>| old_issued.insert(self.users@[n].user_uuid@).contains(id) implies self.issued().contains(id) by {
                    if id == self.users@[n].user_uuid@ {
                        assert(self.issued@[self.issued@.len() - 1]@ == id);
                    } else {
                        let k = choose|k: int| 0 <= k < old(self).issued@.len() && old(self).issued@[k]@ == id;
                        assert(self.issued@[k] == old(self).issued@[k]);
                    }
                }
                assert forall|id: Seq<char>| self.issued().contains(id) implies old_issued.insert(self.users@[n].user_uuid@).contains(id) by {
                    let k = choose|k: int| 0 <= k < self.issued@.len() && self.issued@[k]@ == id;
                    if k < old(self).issued@.len() {
                        assert(self.issued@[k] == old(self).issued@[k]);
                    }
                }
            }
            assert forall|u: Seq<char>| #[trigger] self.model@.contains_key(u) implies exists|i: int| 0 <= i < self.users@.len() && self.users@[i].username@ == u by {
                if u != self.users@[n].username@ {
                    let i = choose|i: int| 0 <= i < self.users@.len() - 1 && old(self).users@[i].username@ == u;
                    assert(self.users@[i].username@ == u);
                }
            }
            assert(self.model@.dom().len() == self.users@.len());
            assert(self.records_match());
            assert(self.records_unique());
        }
        Ok(())
    }
}

impl Default for UsersImpl {
    fn default() -> (r: Self)
        ensures
            r.inv(),
            r.credentials() == Map::<Seq<char>, (Seq<char>, Seq<char>)>::empty(),
            r.issued() == Set::<Seq<char>>::empty(),
    {
        let r = UsersImpl { users: Vec::new(), issued: Vec::new(), model: Ghost(Map::empty()) };
        assert(r.model@.dom() =~= Set::<Seq<char>>::empty());
        assert(r.issued() =~= Set::<Seq<char>>::empty());
        r
    }
}

impl Users for UsersImpl {
    closed spec fn credentials(&self) -> CredentialMap {
        self.model@
    }

    closed spec fn issued(&self) -> Set<Seq<char>> {
        Set::new(|id: Seq<char>| exists|k: int| 0 <= k < self.issued@.len() && self.issued@[k]@ == id)
    }

    closed spec fn inv(&self) -> bool {
        self.records_match() && self.records_unique()
    }

    fn create_user(&mut self, username: String, password: String) -> (r: Result<(), CreateError>) {
        if self.find_username(&username).is_some() {
            return Err(CreateError::UsernameTaken);
        }
        let salt = fresh_salt();
        let hashed_password = match hash_password(password.as_str(), &salt) {
            Ok(h) => h,
            Err(_) => {
                return Err(CreateError::HashingFailure);
            },
        };
        let user_uuid = random_uuid();
        let r = self.insert_credential(username, user_uuid, hashed_password);
        proof {
            if r is Ok {
                assert(self.credentials().remove(username@) =~= old(self).credentials());
            }
        }
        r
    }

    fn get_user_uuid(&self, username: String, password: String) -> (r: Option<String>) {
        match self.find_username(&username) {
            None => {
                proof {
                    if self.model@.contains_key(username@) {
                        let i = choose|i: int| 0 <= i < self.users@.len() && self.users@[i].username@ == username@;
                        assert(self.users@[i].username@ != username@);
                    }
                }
                None
            },
            Some(i) => {
                let user = &self.users[i];
                assert(self.model@.contains_key(self.users@[i as int].username@));
                if user.username == username && verify_password(password.as_str(), user.password.as_str()) {
                    Some(user.user_uuid.clone())
                } else {
                    None
                }
            },
        }
    }

    fn delete_user(&mut self, user_uuid: String) {
        match self.find_identity(&user_uuid) {
            None => {
                proof {
                    assert(self.model@ =~= without_identity(old(self).model@, user_uuid@)) by {
                        assert forall|u: Seq<char>| #[trigger] self.model@.contains_key(u) implies self.model@[u].0 != user_uuid@ by {
                            let i = choose|i: int| 0 <= i < self.users@.len() && self.users@[i].username@ == u;
                            assert(self.model@.contains_key(self.users@[i].username@));
                        }
                    }
                }
            },
            Some(i) => {
                let ghost name = self.users@[i as int].username@;
                let ghost old_users = self.users@;
                self.users.remove(i);
                self.model = Ghost(self.model@.remove(name));
                proof {
                    assert(old(self).model@.contains_key(name));
                    assert forall|j: int| 0 <= j < self.users@.len() implies #[trigger] self.users@[j] == old_users[if j < i { j } else { j + 1 }] by {}
                    assert forall|j: int, l: int| 0 <= j < self.users@.len() && 0 <= l < self.users@.len()
                        && #[trigger] self.users@[j].username@ == #[trigger] self.users@[l].username@ implies j == l by {
                        let a = if j < i { j } else { j + 1 };
                        let b = if l < i { l } else { l + 1 };
                        assert(self.users@[j] == old_users[a]);
                        assert(self.users@[l] == old_users[b]);
                        assert(old_users[a].username@ == old_users[b].username@);
                    }
                    assert forall|j: int, l: int| 0 <= j < self.users@.len() && 0 <= l < self.users@.len()
                        && #[trigger] self.users@[j].user_uuid@ == #[trigger] self.users@[l].user_uuid@ implies j == l by {
                        let a = if j < i { j } else { j + 1 };
                        let b = if l < i { l } else { l + 1 };
                        assert(self.users@[j] == old_users[a]);
                        assert(self.users@[l] == old_users[b]);
                        assert(old_users[a].user_uuid@ == old_users[b].user_uuid@);
                    }
                    assert forall|j: int| 0 <= j < self.users@.len() implies self.issued().contains(#[trigger] self.users@[j].user_uuid@) by {
                        let a = if j < i { j } else { j + 1 };
                        assert(self.users@[j] == old_users[a]);
                        assert(old(self).issued().contains(old_users[a].user_uuid@));
                    }
                    assert forall|j: int| 0 <= j < self.users@.len() implies #[trigger] self.model@.contains_key(self.users@[j].username@)
                        && self.model@[self.users@[j].username@] == (self.users@[j].user_uuid@, self.users@[j].password@) by {
                        let a = if j < i { j } else { j + 1 };
                        assert(self.users@[j] == old_users[a]);
                        assert(old(self).model@.contains_key(old_users[a].username@));
                        assert(a != i);
                    }
                    assert forall|j: int| 0 <= j < self.users@.len() implies #[trigger] self.users@[j].username@ != name by {
                        let k = if j < i { j } else { j + 1 };
                        assert(old_users[k] == self.users@[j]);
                    }
                    assert forall|u: Seq<char>| #[trigger] self.model@.contains_key(u) implies exists|j: int| 0 <= j < self.users@.len() && self.users@[j].username@ == u by {
                        let k = choose|k: int| 0 <= k < old_users.len() && old_users[k].username@ == u;
                        if k < i {
                            assert(self.users@[k] == old_users[k]);
                        } else {
                            assert(k != i);
                            assert(self.users@[k - 1] == old_users[k]);
                        }
                    }
                    assert(self.model@ =~= without_identity(old(self).model@, user_uuid@)) by {
                        assert forall|u: Seq<char>| old(self).model@.contains_key(u) && old(self).model@[u].0 == user_uuid@ implies u == name by {
                            let k = choose|k: int| 0 <= k < old_users.len() && old_users[k].username@ == u;
                            assert(old(self).model@.contains_key(old_users[k].username@));
                        }
                    }
                    assert(self.issued() =~= old(self).issued());
                    assert(self.model@.dom().len() == self.users@.len());
                    assert(self.records_match());
                    assert(self.records_unique());
                }
            },
        }
    }
}

} // verus!
