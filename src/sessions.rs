//! The session store: at most one live token per user identity.
//!
//! Sessions are filed by identity and revoked by token: a client holds only
//! its token, so sign-out presents that. Issuing a new token for an identity
//! replaces the one it had.

use vstd::prelude::*;

use crate::ids::random_id;

verus! {

/// The sessions of `sessions` (identity to token) whose token is not `token`.
pub open spec fn without_token(sessions: Map<Seq<char>, Seq<char>>, token: Seq<char>) -> Map<Seq<char>, Seq<char>> {
    Map::new(|id: Seq<char>| sessions.contains_key(id) && sessions[id] != token, |id: Seq<char>| sessions[id])
}

/// Some identity holds `token` as its live session.
pub open spec fn token_is_live(sessions: Map<Seq<char>, Seq<char>>, token: Seq<char>) -> bool {
    exists|id: Seq<char>| #[trigger] sessions.contains_key(id) && sessions[id] == token
}

/// A session store, seen as a map from identity to token.
pub trait Sessions {
    spec fn wf(&self) -> bool;

    spec fn sessions(&self) -> Map<Seq<char>, Seq<char>>;

    /// Issues a fresh random token for `user_uuid`, replacing its session if
    /// it had one.
    fn create_session(&mut self, user_uuid: &str) -> (r: String)
        requires
            old(self).wf(),
        ensures
            final(self).wf(),
            r@.len() > 0,
            final(self).sessions() == old(self).sessions().insert(user_uuid@, r@),
    ;

    /// Revokes the session that `session_token` belongs to; nothing happens
    /// when no session has it.
    fn delete_session(&mut self, session_token: &str)
        requires
            old(self).wf(),
        ensures
            final(self).wf(),
            final(self).sessions() == without_token(old(self).sessions(), session_token@),
    ;
}

/// An in-memory session store: a list of (identity, token) pairs with
/// distinct identities.
pub struct SessionsImpl {
    entries: Vec<(String, String)>,
    model: Ghost<Map<Seq<char>, Seq<char>>>,
}

impl SessionsImpl {
    /// An empty store.
    pub fn new() -> (r: Self)
        ensures
            r.wf(),
            r.sessions() == Map::<Seq<char>, Seq<char>>::empty(),
    {
        SessionsImpl { entries: Vec::new(), model: Ghost(Map::empty()) }
    }

    /// How many sessions are live.
    pub fn session_count(&self) -> (r: usize)
        requires
            self.wf(),
        ensures
            r == self.sessions().len(),
    {
        self.entries.len()
    }

    /// The live token of `user_uuid`, if it has one.
    pub fn session_of(&self, user_uuid: &str) -> (r: Option<String>)
        requires
            self.wf(),
        ensures
            (match r {
                Some(token) => self.sessions().contains_key(user_uuid@) && self.sessions()[user_uuid@] == token@,
                None => !self.sessions().contains_key(user_uuid@),
            }),
    {
        let id = user_uuid.to_owned();
        match self.find_identity(&id) {
            Some(i) => {
                assert(self.model@.contains_key(self.entries@[i as int].0@));
                Some(self.entries[i].1.clone())
            },
            None => None,
        }
    }

    /// The position of the entry of `id`.
    fn find_identity(&self, id: &String) -> (r: Option<usize>)
        ensures
            (match r {
                Some(i) => i < self.entries@.len() && self.entries@[i as int].0@ == id@,
                None => forall|i: int| 0 <= i < self.entries@.len() ==> #[trigger] self.entries@[i].0@ != id@,
            }),
            r is None && self.wf() ==> !self.model@.contains_key(id@),
    {
        let mut i: usize = 0;
        while i < self.entries.len()
            invariant
                i <= self.entries@.len(),
                forall|j: int| 0 <= j < i ==> #[trigger] self.entries@[j].0@ != id@,
            decreases self.entries@.len() - i,
        {
            if self.entries[i].0 == *id {
                return Some(i);
            }
            i = i + 1;
        }
        None
    }

    /// The position of an entry whose token is `token`.
    fn find_token(&self, token: &String) -> (r: Option<usize>)
        ensures
            (match r {
                Some(i) => i < self.entries@.len() && self.entries@[i as int].1@ == token@,
                None => forall|i: int| 0 <= i < self.entries@.len() ==> #[trigger] self.entries@[i].1@ != token@,
            }),
    {
        let mut i: usize = 0;
        while i < self.entries.len()
            invariant
                i <= self.entries@.len(),
                forall|j: int| 0 <= j < i ==> #[trigger] self.entries@[j].1@ != token@,
            decreases self.entries@.len() - i,
        {
            if self.entries[i].1 == *token {
                return Some(i);
            }
            i = i + 1;
        }
        None
    }

    /// Files `session_token` as the session of `user_uuid`, replacing the one
    /// it had.
    pub fn insert_session(&mut self, user_uuid: String, session_token: String)
        requires
            old(self).wf(),
        ensures
            final(self).wf(),
            final(self).sessions() == old(self).sessions().insert(user_uuid@, session_token@),
    {
        let ghost before = self.model@;
        let ghost old_entries = self.entries@;
        let ghost id = user_uuid@;
        let ghost token = session_token@;
        match self.find_identity(&user_uuid) {
            Some(i) => {
                self.entries.set(i, (user_uuid, session_token));
                self.model = Ghost(before.insert(id, token));
                proof {
                    let k = i as int;
                    assert forall|a: int| 0 <= a < self.entries@.len() implies #[trigger] self.model@.contains_key(
                        self.entries@[a].0@,
                    ) && self.model@[self.entries@[a].0@] == self.entries@[a].1@ by {
                        if a != k {
                            assert(self.entries@[a] == old_entries[a]);
                            assert(before.contains_key(old_entries[a].0@));
                        }
                    }
                    assert forall|d: Seq<char>| #[trigger] self.model@.contains_key(d) implies exists|a: int|
                        0 <= a < self.entries@.len() && #[trigger] self.entries@[a].0@ == d by {
                        if d == id {
                            assert(self.entries@[k].0@ == d);
                        } else {
                            let j = choose|j: int| 0 <= j < old_entries.len() && #[trigger] old_entries[j].0@ == d;
                            assert(self.entries@[j].0@ == d);
                        }
                    }
                    assert forall|a: int, b: int| 0 <= a < b < self.entries@.len() implies self.entries@[a].0@
                        != self.entries@[b].0@ by {
                        assert(old_entries[a].0@ != old_entries[b].0@);
                    }
                    assert(before.contains_key(id));
                    assert(self.model@.dom() =~= before.dom());
                }
            },
            None => {
                let n = self.entries.len();
                self.entries.push((user_uuid, session_token));
                self.model = Ghost(before.insert(id, token));
                proof {
                    assert forall|a: int| 0 <= a < self.entries@.len() implies #[trigger] self.model@.contains_key(
                        self.entries@[a].0@,
                    ) && self.model@[self.entries@[a].0@] == self.entries@[a].1@ by {
                        if a < n {
                            assert(self.entries@[a] == old_entries[a]);
                            assert(before.contains_key(old_entries[a].0@));
                        }
                    }
                    assert forall|d: Seq<char>| #[trigger] self.model@.contains_key(d) implies exists|a: int|
                        0 <= a < self.entries@.len() && #[trigger] self.entries@[a].0@ == d by {
                        if d == id {
                            assert(self.entries@[n as int].0@ == d);
                        } else {
                            let j = choose|j: int| 0 <= j < old_entries.len() && #[trigger] old_entries[j].0@ == d;
                            assert(self.entries@[j].0@ == d);
                        }
                    }
                    assert forall|a: int, b: int| 0 <= a < b < self.entries@.len() implies self.entries@[a].0@
                        != self.entries@[b].0@ by {
                        if b < n {
                            assert(old_entries[a].0@ != old_entries[b].0@);
                        } else {
                            assert(self.entries@[a] == old_entries[a]);
                        }
                    }
                }
            },
        }
    }

    /// Removes the entry at `i`.
    fn remove_entry(&mut self, i: usize)
        requires
            old(self).wf(),
            i < old(self).entries@.len(),
        ensures
            final(self).wf(),
            final(self).entries@.len() == old(self).entries@.len() - 1,
            final(self).model@ == old(self).model@.remove(old(self).entries@[i as int].0@),
    {
        let ghost before = self.model@;
        let ghost old_entries = self.entries@;
        let ghost name = old_entries[i as int].0@;
        let removed = self.entries.remove(i);
        self.model = Ghost(before.remove(name));
        proof {
            let k = i as int;
            assert(before.contains_key(old_entries[k].0@));
            assert forall|a: int| 0 <= a < self.entries@.len() implies #[trigger] self.entries@[a] == (if a < k {
                old_entries[a]
            } else {
                old_entries[a + 1]
            }) by {}
            assert forall|a: int| 0 <= a < self.entries@.len() implies #[trigger] self.model@.contains_key(
                self.entries@[a].0@,
            ) && self.model@[self.entries@[a].0@] == self.entries@[a].1@ by {
                if a < k {
                    assert(old_entries[a].0@ != name);
                    assert(before.contains_key(old_entries[a].0@));
                } else {
                    assert(old_entries[a + 1].0@ != name);
                    assert(before.contains_key(old_entries[a + 1].0@));
                }
            }
            assert forall|d: Seq<char>| #[trigger] self.model@.contains_key(d) implies exists|a: int|
                0 <= a < self.entries@.len() && #[trigger] self.entries@[a].0@ == d by {
                let j = choose|j: int| 0 <= j < old_entries.len() && #[trigger] old_entries[j].0@ == d;
                assert(j != k);
                if j < k {
                    assert(self.entries@[j].0@ == d);
                } else {
                    assert(self.entries@[j - 1].0@ == d);
                }
            }
            assert forall|a: int, b: int| 0 <= a < b < self.entries@.len() implies self.entries@[a].0@
                != self.entries@[b].0@ by {
                let a2 = if a < k { a } else { a + 1 };
                let b2 = if b < k { b } else { b + 1 };
                assert(self.entries@[a] == old_entries[a2]);
                assert(self.entries@[b] == old_entries[b2]);
            }
        }
    }
}

impl Sessions for SessionsImpl {
    closed spec fn wf(&self) -> bool {
        &&& self.model@.dom().finite()
        &&& self.model@.len() == self.entries@.len()
        &&& forall|i: int|
            0 <= i < self.entries@.len() ==> #[trigger] self.model@.contains_key(self.entries@[i].0@)
                && self.model@[self.entries@[i].0@] == self.entries@[i].1@
        &&& forall|d: Seq<char>| #[trigger]
            self.model@.contains_key(d) ==> exists|i: int| 0 <= i < self.entries@.len() && #[trigger] self.entries@[i].0@ == d
        &&& forall|i: int, j: int| 0 <= i < j < self.entries@.len() ==> self.entries@[i].0@ != self.entries@[j].0@
    }

    closed spec fn sessions(&self) -> Map<Seq<char>, Seq<char>> {
        self.model@
    }

    fn create_session(&mut self, user_uuid: &str) -> (r: String) {
        let session_token = random_id();
        self.insert_session(user_uuid.to_owned(), session_token.clone());
        session_token
    }

    fn delete_session(&mut self, session_token: &str) {
        let token = session_token.to_owned();
        let ghost goal = without_token(self.model@, token@);
        loop
            invariant
                self.wf(),
                without_token(self.model@, token@) == goal,
            ensures
                self.wf(),
                self.model@ == goal,
            decreases self.entries@.len(),
        {
            match self.find_token(&token) {
                None => {
                    assert(self.model@ =~= without_token(self.model@, token@)) by {
                        assert forall|d: Seq<char>| #[trigger] self.model@.contains_key(d) implies self.model@[d]
                            != token@ by {
                            let j = choose|j: int| 0 <= j < self.entries@.len() && #[trigger] self.entries@[j].0@ == d;
                            assert(self.entries@[j].1@ != token@);
                        }
                    }
                    break;
                },
                Some(i) => {
                    let ghost m = self.model@;
                    let ghost d = self.entries@[i as int].0@;
                    assert(m.contains_key(self.entries@[i as int].0@));
                    assert(m.contains_key(d) && m[d] == token@);
                    self.remove_entry(i);
                    assert(without_token(self.model@, token@) =~= without_token(m, token@));
                },
            }
        }
    }
}

impl Default for SessionsImpl {
    fn default() -> (r: Self)
        ensures
            r.wf(),
            r.sessions() == Map::<Seq<char>, Seq<char>>::empty(),
    {
        SessionsImpl::new()
    }
}

/// Issuing two different tokens to one identity leaves only the second as
/// its session: the first, unless another identity holds it, no longer
/// resolves to any session, and the second does.
pub proof fn lemma_reissue_replaces(
    sessions: Map<Seq<char>, Seq<char>>,
    user_uuid: Seq<char>,
    first: Seq<char>,
    second: Seq<char>,
)
    requires
        first != second,
        !token_is_live(sessions.remove(user_uuid), first),
    ensures
        ({
            let after = sessions.insert(user_uuid, first).insert(user_uuid, second);
            &&& after == sessions.insert(user_uuid, second)
            &&& after[user_uuid] == second
            &&& token_is_live(after, second)
            &&& !token_is_live(after, first)
        }),
{
    let after = sessions.insert(user_uuid, first).insert(user_uuid, second);
    assert(after =~= sessions.insert(user_uuid, second));
    assert(after.contains_key(user_uuid));
    if token_is_live(after, first) {
        let d = choose|d: Seq<char>| #[trigger] after.contains_key(d) && after[d] == first;
        assert(sessions.remove(user_uuid).contains_key(d));
    }
}

/// Revoking a token twice is the same as revoking it once; revoking a token
/// that no session has changes nothing.
pub proof fn lemma_revoke_idempotent(sessions: Map<Seq<char>, Seq<char>>, token: Seq<char>)
    ensures
        without_token(without_token(sessions, token), token) == without_token(sessions, token),
        !token_is_live(sessions, token) ==> without_token(sessions, token) == sessions,
{
    assert(without_token(without_token(sessions, token), token) =~= without_token(sessions, token));
    if !token_is_live(sessions, token) {
        assert forall|d: Seq<char>| #[trigger] sessions.contains_key(d) implies sessions[d] != token by {
            if sessions[d] == token {
                assert(token_is_live(sessions, token));
            }
        }
        assert(without_token(sessions, token) =~= sessions);
    }
}

} // verus!
