//! Token records and the store that keeps them, keyed by id.

use std::collections::HashMap;
use vstd::prelude::*;

use crate::error::AuthError;

verus! {

broadcast use vstd::std_specs::hash::group_hash_axioms;

/// A stored token. `token` is the digest of the secret, never the secret.
#[derive(Debug)]
pub struct PersonalAccessToken {
    pub id: i64,
    pub user_id: i64,
    pub name: String,
    pub token: String,
    pub abilities: Vec<String>,
    pub last_used_at: i64,
    pub created_at: i64,
}

/// The content of a stored token.
pub struct TokenRecord {
    pub id: i64,
    pub user_id: i64,
    pub name: Seq<char>,
    pub digest: Seq<char>,
    pub abilities: Seq<Seq<char>>,
    pub last_used_at: i64,
    pub created_at: i64,
}

impl View for PersonalAccessToken {
    type V = TokenRecord;

    open spec fn view(&self) -> TokenRecord {
        TokenRecord {
            id: self.id,
            user_id: self.user_id,
            name: self.name@,
            digest: self.token@,
            abilities: self.abilities.deep_view(),
            last_used_at: self.last_used_at,
            created_at: self.created_at,
        }
    }
}

/// The record `r` after a use at `now`: its last use never moves back.
pub open spec fn touched(r: TokenRecord, now: i64) -> TokenRecord {
    TokenRecord { last_used_at: if now > r.last_used_at { now } else { r.last_used_at }, ..r }
}

/// A copy of a list of strings.
pub fn copy_strings(v: &Vec<String>) -> (r: Vec<String>)
    ensures
        r.deep_view() == v.deep_view(),
{
    let mut r: Vec<String> = Vec::new();
    let mut i: usize = 0;
    while i < v.len()
        invariant
            i <= v@.len(),
            r@.len() == i,
            forall|k: int| 0 <= k < i ==> #[trigger] r@[k]@ == v@[k]@,
        decreases v@.len() - i,
    {
        let c = v[i].clone();
        r.push(c);
        i = i + 1;
    }
    assert(r.deep_view() =~= v.deep_view());
    r
}

impl PersonalAccessToken {
    /// A copy of the record.
    pub fn duplicate(&self) -> (r: PersonalAccessToken)
        ensures
            r@ == self@,
    {
        PersonalAccessToken {
            id: self.id,
            user_id: self.user_id,
            name: self.name.clone(),
            token: self.token.clone(),
            abilities: copy_strings(&self.abilities),
            last_used_at: self.last_used_at,
            created_at: self.created_at,
        }
    }
}

/// The durable rows of tokens, each under its own id. Ids are assigned by the
/// store, in increasing order, and never reused.
pub struct TokenStore {
    rows: HashMap<i64, PersonalAccessToken>,
    next_id: i64,
}

impl View for TokenStore {
    type V = Map<i64, TokenRecord>;

    closed spec fn view(&self) -> Map<i64, TokenRecord> {
        self.rows@.map_values(|t: PersonalAccessToken| t@)
    }
}

impl TokenStore {
    /// Every row sits under its own id, and every id is below the next one
    /// to be assigned.
    pub closed spec fn wf(&self) -> bool {
        &&& self.next_id >= 1
        &&& forall|id: i64| #[trigger]
            self.rows@.contains_key(id) ==> self.rows@[id].id == id && 1 <= id < self.next_id
    }

    /// Whether no further id can be assigned.
    pub closed spec fn exhausted(&self) -> bool {
        self.next_id == i64::MAX
    }

    pub proof fn lemma_ids(&self)
        requires
            self.wf(),
        ensures
            forall|id: i64| #[trigger] self@.contains_key(id) ==> self@[id].id == id && id >= 1,
    {
        assert forall|id: i64| #[trigger] self@.contains_key(id) implies self@[id].id == id && id
            >= 1 by {
            assert(self.rows@.contains_key(id));
        }
    }

    /// An empty store.
    pub fn new() -> (r: TokenStore)
        ensures
            r.wf(),
            r@ == Map::<i64, TokenRecord>::empty(),
            !r.exhausted(),
    {
        let r = TokenStore { rows: HashMap::new(), next_id: 1 };
        assert(r@ =~= Map::<i64, TokenRecord>::empty());
        r
    }

    /// Stores a new row under a fresh id and returns that id. Fails with a
    /// storage fault only when no id is left.
    pub fn insert(
        &mut self,
        user_id: i64,
        name: String,
        digest: String,
        abilities: Vec<String>,
        now: i64,
    ) -> (r: Result<i64, AuthError>)
        requires
            old(self).wf(),
        ensures
            final(self).wf(),
            r is Err <==> old(self).exhausted(),
            r matches Err(e) ==> e == AuthError::StorageFault && final(self)@ == old(self)@,
            r matches Ok(id) ==> {
                &&& id >= 1
                &&& !old(self)@.contains_key(id)
                &&& final(self)@ == old(self)@.insert(
                    id,
                    TokenRecord {
                        id,
                        user_id,
                        name: name@,
                        digest: digest@,
                        abilities: abilities.deep_view(),
                        last_used_at: now,
                        created_at: now,
                    },
                )
            },
    {
        if self.next_id == i64::MAX {
            return Err(AuthError::StorageFault);
        }
        let id = self.next_id;
        let row = PersonalAccessToken {
            id,
            user_id,
            name,
            token: digest,
            abilities,
            last_used_at: now,
            created_at: now,
        };
        let ghost rec = row@;
        self.rows.insert(id, row);
        self.next_id = id + 1;
        assert(self@ =~= old(self)@.insert(id, rec));
        Ok(id)
    }

    /// The row under `id`, or `TokenNotFound`.
    pub fn find_by_id(&self, id: i64) -> (r: Result<PersonalAccessToken, AuthError>)
        requires
            self.wf(),
        ensures
            r is Ok <==> self@.contains_key(id),
            r matches Ok(t) ==> t@ == self@[id],
            r matches Err(e) ==> e == AuthError::TokenNotFound,
    {
        match self.rows.get(&id) {
            Some(t) => Ok(t.duplicate()),
            None => Err(AuthError::TokenNotFound),
        }
    }

    /// Removes the row under `id` and returns how many rows went: one, or
    /// zero where there was none.
    pub fn delete(&mut self, id: i64) -> (r: u64)
        requires
            old(self).wf(),
        ensures
            final(self).wf(),
            final(self).exhausted() == old(self).exhausted(),
            final(self)@ == old(self)@.remove(id),
            r == (if old(self)@.contains_key(id) {
                1u64
            } else {
                0u64
            }),
    {
        let removed = self.rows.remove(&id);
        assert(self@ =~= old(self)@.remove(id));
        match removed {
            Some(_) => 1,
            None => 0,
        }
    }

    /// Records a use of the row under `id` at `now` and returns how many rows
    /// were updated. The time of last use never moves back.
    pub fn touch(&mut self, id: i64, now: i64) -> (r: u64)
        requires
            old(self).wf(),
        ensures
            final(self).wf(),
            final(self).exhausted() == old(self).exhausted(),
            old(self)@.contains_key(id) ==> r == 1 && final(self)@ == old(self)@.insert(
                id,
                touched(old(self)@[id], now),
            ),
            !old(self)@.contains_key(id) ==> r == 0 && final(self)@ == old(self)@,
    {
        match self.rows.remove(&id) {
            Some(mut t) => {
                if now > t.last_used_at {
                    t.last_used_at = now;
                }
                let ghost rec = t@;
                self.rows.insert(id, t);
                assert(self@ =~= old(self)@.insert(id, touched(old(self)@[id], now)));
                1
            },
            None => {
                assert(self@ =~= old(self)@);
                0
            },
        }
    }
}

} // verus!
