//! The session store: at most one bearer token per identity, each token
//! held by at most one identity.

use crate::secrets::random_uuid;
use vstd::prelude::*;

verus! {

/// What a session store holds: for each identity, its current token.
pub type SessionMap = Map<Seq<char>, Seq<char>>;

/// Some identity currently holds `token`.
pub open spec fn token_in_use(sessions: SessionMap, token: Seq<char>) -> bool {
    exists|id: Seq<char>| sessions.contains_key(id) && #[trigger] sessions[id] == token
}

/// No two identities hold the same token.
pub open spec fn tokens_unique(sessions: SessionMap) -> bool {
    forall|a: Seq<char>, b: Seq<char>|
        sessions.contains_key(a) && sessions.contains_key(b) && #[trigger] sessions[a] == #[trigger] sessions[b] ==> a == b
}

/// `sessions` after `identity` is given `token`: its earlier token is
/// replaced, and any other session holding `token` is revoked.
pub open spec fn install(sessions: SessionMap, identity: Seq<char>, token: Seq<char>) -> SessionMap {
    Map::new(
        |id: Seq<char>| sessions.contains_key(id) && id != identity && sessions[id] != token,
        |id: Seq<char>| sessions[id],
    ).insert(identity, token)
}

/// A session store, whatever backs it.
pub trait Sessions {
    /// The current token of each identity that has a session.
    spec fn sessions(&self) -> SessionMap;

    /// The store's internal consistency.
    spec fn inv(&self) -> bool;

    /// A consistent store never gives one token to two identities.
    proof fn lemma_tokens_unique(&self)
        requires
            self.inv(),
        ensures
            tokens_unique(self.sessions()),
    ;

    /// Issues a fresh random token to `user_uuid`, replacing its earlier one.
    fn create_session(&mut self, user_uuid: &str) -> (r: String)
        requires
            old(self).inv(),
        ensures
            final(self).inv(),
            r@.len() > 0,
            final(self).sessions() == install(old(self).sessions(), user_uuid@, r@),
    ;

    /// Ends the session of `user_uuid`, if it has one.
    fn delete_session(&mut self, user_uuid: &str)
        requires
            old(self).inv(),
        ensures
            final(self).inv(),
            final(self).sessions() == old(self).sessions().remove(user_uuid@),
    ;

    /// The identity whose session holds `session_token`, if any.
    fn identity_of(&self, session_token: &str) -> (r: Option<String>)
        requires
            self.inv(),
        ensures
            r is Some <==> token_in_use(self.sessions(), session_token@),
            r is Some ==> self.sessions().contains_key(r->Some_0@) && self.sessions()[r->Some_0@] == session_token@,
    ;
}

struct Session {
    user_uuid: String,
    token: String,
}

/// An in-memory session store.
pub struct SessionsImpl {
    sessions: Vec<Session>,
    model: Ghost<SessionMap>,
}

impl SessionsImpl {
    /// Each stored record is in the model, and the model has no other entry.
    pub closed spec fn records_match(&self) -> bool {
        &&& forall|i: int|
            0 <= i < self.sessions@.len() ==> #[trigger] self.model@.contains_key(self.sessions@[i].user_uuid@)
                && self.model@[self.sessions@[i].user_uuid@] == self.sessions@[i].token@
        &&& forall|u: Seq<char>| #[trigger]
            self.model@.contains_key(u) ==> exists|i: int| 0 <= i < self.sessions@.len() && self.sessions@[i].user_uuid@ == u
        &&& self.model@.dom().finite()
        &&& self.model@.dom().len() == self.sessions@.len()
    }

    /// No two records share an identity or a token.
    pub closed spec fn records_unique(&self) -> bool {
        &&& forall|i: int, j: int|
            0 <= i < self.sessions@.len() && 0 <= j < self.sessions@.len()
                && #[trigger] self.sessions@[i].user_uuid@ == #[trigger] self.sessions@[j].user_uuid@ ==> i == j
        &&& forall|i: int, j: int|
            0 <= i < self.sessions@.len() && 0 <= j < self.sessions@.len()
                && #[trigger] self.sessions@[i].token@ == #[trigger] self.sessions@[j].token@ ==> i == j
    }

    proof fn lemma_records_tokens_unique(&self)
        requires
            self.records_match(),
            self.records_unique(),
        ensures
            tokens_unique(self.model@),
    {
        assert forall|a: Seq<char>, b: Seq<char>|
            self.model@.contains_key(a) && self.model@.contains_key(b) && #[trigger] self.model@[a] == #[trigger] self.model@[b] implies a == b by {
            let i = choose|i: int| 0 <= i < self.sessions@.len() && self.sessions@[i].user_uuid@ == a;
            let j = choose|j: int| 0 <= j < self.sessions@.len() && self.sessions@[j].user_uuid@ == b;
            assert(self.model@.contains_key(self.sessions@[i].user_uuid@));
            assert(self.model@.contains_key(self.sessions@[j].user_uuid@));
            assert(self.sessions@[i].token@ == self.sessions@[j].token@);
        }
    }

    fn find_identity(&self, user_uuid: &String) -> (r: Option<usize>)
        ensures
            r is Some ==> r->Some_0 < self.sessions@.len() && self.sessions@[r->Some_0 as int].user_uuid@ == user_uuid@,
            r is None ==> forall|i: int| 0 <= i < self.sessions@.len() ==> self.sessions@[i].user_uuid@ != user_uuid@,
    {
        let mut i: usize = 0;
        while i < self.sessions.len()
            invariant
                i <= self.sessions@.len(),
                forall|k: int| 0 <= k < i ==> self.sessions@[k].user_uuid@ != user_uuid@,
            decreases self.sessions@.len() - i,
        {
            if self.sessions[i].user_uuid == *user_uuid {
                return Some(i);
            }
            i += 1;
        }
        None
    }

    fn find_token(&self, token: &String) -> (r: Option<usize>)
        ensures
            r is Some ==> r->Some_0 < self.sessions@.len() && self.sessions@[r->Some_0 as int].token@ == token@,
            r is None ==> forall|i: int| 0 <= i < self.sessions@.len() ==> self.sessions@[i].token@ != token@,
    {
        let mut i: usize = 0;
        while i < self.sessions.len()
            invariant
                i <= self.sessions@.len(),
                forall|k: int| 0 <= k < i ==> self.sessions@[k].token@ != token@,
            decreases self.sessions@.len() - i,
        {
            if self.sessions[i].token == *token {
                return Some(i);
            }
            i += 1;
        }
        None
    }
}


impl SessionsImpl {
    fn remove_at(&mut self, i: usize)
        requires
            old(self).records_match(),
            old(self).records_unique(),
            i < old(self).sessions@.len(),
        ensures
            final(self).records_match(),
            final(self).records_unique(),
            final(self).model@ == old(self).model@.remove(old(self).sessions@[i as int].user_uuid@),
    {
        let ghost name = self.sessions@[i as int].user_uuid@;
        let ghost old_s = self.sessions@;
        self.sessions.remove(i);
        self.model = Ghost(self.model@.remove(name));
        proof {
            assert(old(self).model@.contains_key(name));
            assert forall|j: int| 0 <= j < self.sessions@.len() implies #[trigger] self.sessions@[j] == old_s[if j < i { j } else { j + 1 }] by {}
            assert forall|j: int, l: int| 0 <= j < self.sessions@.len() && 0 <= l < self.sessions@.len()
                && #[trigger] self.sessions@[j].user_uuid@ == #[trigger] self.sessions@[l].user_uuid@ implies j == l by {
                let a = if j < i { j } else { j + 1 };
                let b = if l < i { l } else { l + 1 };
                assert(self.sessions@[j] == old_s[a]);
                assert(self.sessions@[l] == old_s[b]);
                assert(old_s[a].user_uuid@ == old_s[b].user_uuid@);
            }
            assert forall|j: int, l: int| 0 <= j < self.sessions@.len() && 0 <= l < self.sessions@.len()
                && #[trigger] self.sessions@[j].token@ == #[trigger] self.sessions@[l].token@ implies j == l by {
                let a = if j < i { j } else { j + 1 };
                let b = if l < i { l } else { l + 1 };
                assert(self.sessions@[j] == old_s[a]);
                assert(self.sessions@[l] == old_s[b]);
                assert(old_s[a].token@ == old_s[b].token@);
            }
            assert forall|j: int| 0 <= j < self.sessions@.len() implies #[trigger] self.model@.contains_key(self.sessions@[j].user_uuid@)
                && self.model@[self.sessions@[j].user_uuid@] == self.sessions@[j].token@ by {
                let a = if j < i { j } else { j + 1 };
                assert(self.sessions@[j] == old_s[a]);
                assert(old(self).model@.contains_key(old_s[a].user_uuid@));
                assert(a != i);
            }
            assert forall|u: Seq<char>| #[trigger] self.model@.contains_key(u) implies exists|j: int| 0 <= j < self.sessions@.len() && self.sessions@[j].user_uuid@ == u by {
                let k = choose|k: int| 0 <= k < old_s.len() && old_s[k].user_uuid@ == u;
                if k < i {
                    assert(self.sessions@[k] == old_s[k]);
                } else {
                    assert(k != i);
                    assert(self.sessions@[k - 1] == old_s[k]);
                }
            }
        }
    }

    /// Gives `user_uuid` the session `token`: its earlier session ends, and
    /// so does any other session holding `token`.
    pub fn install_session(&mut self, user_uuid: &str, token: String)
        requires
            old(self).inv(),
        ensures
            final(self).inv(),
            final(self).sessions() == install(old(self).sessions(), user_uuid@, token@),
    {
        let user_uuid = user_uuid.to_owned();
        let ghost m0 = self.model@;
        match self.find_identity(&user_uuid) {
            Some(i) => {
                self.remove_at(i);
            },
            None => {
                proof {
                    if self.model@.contains_key(user_uuid@) {
                        let k = choose|k: int| 0 <= k < self.sessions@.len() && self.sessions@[k].user_uuid@ == user_uuid@;
                        assert(self.sessions@[k].user_uuid@ != user_uuid@);
                    }
                    assert(self.model@ =~= m0.remove(user_uuid@));
                }
            },
        }
        let ghost m1 = self.model@;
        proof {
            self.lemma_records_tokens_unique();
        }
        match self.find_token(&token) {
            Some(j) => {
                let ghost owner = self.sessions@[j as int].user_uuid@;
                assert(self.model@.contains_key(owner));
                self.remove_at(j);
                proof {
                    assert forall|id: Seq<char>| m1.contains_key(id) && m1[id] == token@ implies id == owner by {}
                }
            },
            None => {
                proof {
                    assert forall|id: Seq<char>| m1.contains_key(id) implies m1[id] != token@ by {
                        let k = choose|k: int| 0 <= k < self.sessions@.len() && self.sessions@[k].user_uuid@ == id;
                        assert(self.model@.contains_key(self.sessions@[k].user_uuid@));
                    }
                }
            },
        }
        let ghost m2 = self.model@;
        proof {
            assert(!m2.contains_key(user_uuid@));
            assert forall|i: int| 0 <= i < self.sessions@.len() implies #[trigger] self.sessions@[i].user_uuid@ != user_uuid@ && self.sessions@[i].token@ != token@ by {
                assert(self.model@.contains_key(self.sessions@[i].user_uuid@));
            }
        }
        let ghost old_s = self.sessions@;
        self.sessions.push(Session { user_uuid, token });
        self.model = Ghost(m2.insert(user_uuid@, token@));
        proof {
            let n = self.sessions@.len() - 1;
            assert(self.sessions@[n].user_uuid@ == user_uuid@);
            assert forall|i: int| 0 <= i < n implies #[trigger] self.sessions@[i] == old_s[i] by {}
            assert forall|u: Seq<char>| #[trigger] self.model@.contains_key(u) implies exists|i: int| 0 <= i < self.sessions@.len() && self.sessions@[i].user_uuid@ == u by {
                if u != user_uuid@ {
                    let i = choose|i: int| 0 <= i < old_s.len() && old_s[i].user_uuid@ == u;
                    assert(self.sessions@[i] == old_s[i]);
                }
            }
            assert(self.model@ =~= install(m0, user_uuid@, token@));
            assert forall|i: int, j: int| 0 <= i < self.sessions@.len() && 0 <= j < self.sessions@.len()
                && #[trigger] self.sessions@[i].user_uuid@ == #[trigger] self.sessions@[j].user_uuid@ implies i == j by {
                if i < n && j < n {
                    assert(old_s[i].user_uuid@ == old_s[j].user_uuid@);
                } else if i < n {
                    assert(old_s[i].user_uuid@ != user_uuid@);
                } else if j < n {
                    assert(old_s[j].user_uuid@ != user_uuid@);
                }
            }
            assert forall|i: int, j: int| 0 <= i < self.sessions@.len() && 0 <= j < self.sessions@.len()
                && #[trigger] self.sessions@[i].token@ == #[trigger] self.sessions@[j].token@ implies i == j by {
                if i < n && j < n {
                    assert(old_s[i].token@ == old_s[j].token@);
                } else if i < n {
                    assert(old_s[i].user_uuid@ != user_uuid@);
                } else if j < n {
                    assert(old_s[j].user_uuid@ != user_uuid@);
                }
            }
        }
    }

    /// The number of live sessions.
    pub fn len(&self) -> (r: usize)
        requires
            self.inv(),
        ensures
            r == self.sessions().len(),
    {
        self.sessions.len()
    }

    /// Whether there is no live session.
    pub fn is_empty(&self) -> (r: bool)
        requires
            self.inv(),
        ensures
            r == (self.sessions().len() == 0),
    {
        self.sessions.len() == 0
    }

    /// The current token of `user_uuid`, if it has a session.
    pub fn token_of(&self, user_uuid: &str) -> (r: Option<String>)
        requires
            self.inv(),
        ensures
            r is Some <==> self.sessions().contains_key(user_uuid@),
            r is Some ==> r->Some_0@ == self.sessions()[user_uuid@],
    {
        let user_uuid = user_uuid.to_owned();
        match self.find_identity(&user_uuid) {
            Some(i) => {
                assert(self.model@.contains_key(self.sessions@[i as int].user_uuid@));
                Some(self.sessions[i].token.clone())
            },
            None => {
                proof {
                    if self.model@.contains_key(user_uuid@) {
                        let k = choose|k: int| 0 <= k < self.sessions@.len() && self.sessions@[k].user_uuid@ == user_uuid@;
                        assert(self.sessions@[k].user_uuid@ != user_uuid@);
                    }
                }
                None
            },
        }
    }
}

impl Default for SessionsImpl {
    fn default() -> (r: Self)
        ensures
            r.inv(),
            r.sessions() == Map::<Seq<char>, Seq<char>>::empty(),
    {
        let r = SessionsImpl { sessions: Vec::new(), model: Ghost(Map::empty()) };
        assert(r.model@.dom() =~= Set::<Seq<char>>::empty());
        r
    }
}

impl Sessions for SessionsImpl {
    closed spec fn sessions(&self) -> SessionMap {
        self.model@
    }

    closed spec fn inv(&self) -> bool {
        self.records_match() && self.records_unique()
    }

    proof fn lemma_tokens_unique(&self) {
        self.lemma_records_tokens_unique();
    }

    fn create_session(&mut self, user_uuid: &str) -> (r: String) {
        let session = random_uuid();
        self.install_session(user_uuid, session.clone());
        session
    }

    fn delete_session(&mut self, user_uuid: &str) {
        let user_uuid = user_uuid.to_owned();
        match self.find_identity(&user_uuid) {
            Some(i) => {
                self.remove_at(i);
            },
            None => {
                proof {
                    if self.model@.contains_key(user_uuid@) {
                        let k = choose|k: int| 0 <= k < self.sessions@.len() && self.sessions@[k].user_uuid@ == user_uuid@;
                        assert(self.sessions@[k].user_uuid@ != user_uuid@);
                    }
                    assert(self.model@ =~= old(self).model@.remove(user_uuid@));
                }
            },
        }
    }

    fn identity_of(&self, session_token: &str) -> (r: Option<String>) {
        let token = session_token.to_owned();
        match self.find_token(&token) {
            Some(i) => {
                assert(self.model@.contains_key(self.sessions@[i as int].user_uuid@));
                Some(self.sessions[i].user_uuid.clone())
            },
            None => {
                proof {
                    if token_in_use(self.model@, token@) {
                        let id = choose|id: Seq<char>| self.model@.contains_key(id) && #[trigger] self.model@[id] == token@;
                        let k = choose|k: int| 0 <= k < self.sessions@.len() && self.sessions@[k].user_uuid@ == id;
                        assert(self.model@.contains_key(self.sessions@[k].user_uuid@));
                    }
                }
                None
            },
        }
    }
}

} // verus!
