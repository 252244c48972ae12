//! Issuing, verifying and revoking tokens, and authenticating requests.

use vstd::prelude::*;

use crate::clock::now_seconds;
use crate::error::AuthError;
use crate::expiry::{expired, ExpiryPolicy};
use crate::guard::{
    choice, select_credential, resolve_session, Chosen, Credential, Extracted, Principal,
    PrincipalView,
};
use crate::hash::{argon2_verdict, byte_len, lemma_ascii_byte_len, SecretHasher};
use crate::random::{is_alphanumeric, random_alphanumeric};
use crate::store::{touched, PersonalAccessToken, TokenRecord, TokenStore};
use crate::text::{digits_value, is_i64_digits};
use crate::token::{id_part, is_token_text, secret_part, TransientToken};

verus! {

/// The length of every token secret.
pub const SECRET_LEN: usize = 64;

/// The abilities a new token gets: those asked for, or `["*"]` (all) where
/// none were given.
pub open spec fn default_abilities(asked: Option<Seq<Seq<char>>>) -> Seq<Seq<char>> {
    match asked {
        None => seq!["*"@],
        Some(v) => if v.len() > 0 {
            v
        } else {
            seq!["*"@]
        },
    }
}

/// What checking a presented secret against a stored record decides: the
/// digest must accept the secret, then the token must not have expired.
pub open spec fn check_result(
    rec: TokenRecord,
    secret: Seq<char>,
    key: Seq<char>,
    policy: ExpiryPolicy,
    now: i64,
) -> Result<(), AuthError> {
    match argon2_verdict(rec.digest, secret, key) {
        None => Err(AuthError::HashingFault),
        Some(false) => Err(AuthError::SecretMismatch),
        Some(true) => if expired(policy, rec.created_at as int, rec.last_used_at as int, now as int) {
            Err(AuthError::Expired)
        } else {
            Ok(())
        },
    }
}

/// The id that a token string names.
pub open spec fn token_id(raw: Seq<char>) -> i64 {
    digits_value(id_part(raw)) as i64
}

/// What verifying a token string against the stored records decides, stage
/// by stage: parse, load, check the digest, check the lifetime.
pub open spec fn verify_result(
    records: Map<i64, TokenRecord>,
    key: Seq<char>,
    policy: ExpiryPolicy,
    raw: Seq<char>,
    now: i64,
) -> Result<TokenRecord, AuthError> {
    if !is_token_text(raw) {
        Err(AuthError::MalformedToken)
    } else if !records.contains_key(token_id(raw)) {
        Err(AuthError::TokenNotFound)
    } else {
        match check_result(records[token_id(raw)], secret_part(raw), key, policy, now) {
            Ok(_) => Ok(records[token_id(raw)]),
            Err(e) => Err(e),
        }
    }
}

pub open spec fn token_principal(rec: TokenRecord) -> PrincipalView {
    PrincipalView::Token { user_id: rec.user_id, token_id: rec.id, abilities: rec.abilities }
}

/// Who a request authenticates as, given its three sources of credentials.
pub open spec fn authenticate_result(
    records: Map<i64, TokenRecord>,
    key: Seq<char>,
    policy: ExpiryPolicy,
    bearer: Extracted,
    token_cookie: Extracted,
    session: Extracted,
    now: i64,
) -> Result<PrincipalView, AuthError> {
    match choice(bearer, token_cookie, session) {
        Chosen::Token(raw) => match verify_result(records, key, policy, raw, now) {
            Ok(rec) => Ok(token_principal(rec)),
            Err(e) => Err(e),
        },
        Chosen::Session(id) => if is_i64_digits(id) {
            Ok(PrincipalView::Session { user_id: digits_value(id) as i64 })
        } else {
            Err(AuthError::MalformedToken)
        },
        Chosen::Rejected(e) => Err(e),
    }
}

/// The stored records after a verification that decided `outcome`: a
/// successful one records the use, a failed one changes nothing.
pub open spec fn records_after(
    records: Map<i64, TokenRecord>,
    outcome: Result<TokenRecord, AuthError>,
    now: i64,
) -> Map<i64, TokenRecord> {
    match outcome {
        Ok(rec) => records.insert(rec.id, touched(rec, now)),
        Err(_) => records,
    }
}

pub open spec fn principal_result(r: Result<Principal, AuthError>) -> Result<
    PrincipalView,
    AuthError,
> {
    match r {
        Ok(p) => Ok(p@),
        Err(e) => Err(e),
    }
}

/// `after` is `before` with one new record under the fresh id `id`, whose
/// digest accepts `secret` under `key`.
pub open spec fn issued(
    before: Map<i64, TokenRecord>,
    after: Map<i64, TokenRecord>,
    key: Seq<char>,
    user_id: i64,
    name: Seq<char>,
    abilities: Seq<Seq<char>>,
    id: i64,
    secret: Seq<char>,
    now: i64,
) -> bool {
    &&& id >= 1
    &&& !before.contains_key(id)
    &&& after.contains_key(id)
    &&& after == before.insert(id, after[id])
    &&& after[id].id == id
    &&& after[id].user_id == user_id
    &&& after[id].name == name
    &&& after[id].abilities == abilities
    &&& after[id].created_at == now
    &&& after[id].last_used_at == now
    &&& argon2_verdict(after[id].digest, secret, key) == Some(true)
}

/// A secret as `create` draws it: 64 ASCII letters and digits.
pub open spec fn is_secret_text(s: Seq<char>) -> bool {
    &&& s.len() == SECRET_LEN
    &&& forall|i: int| 0 <= i < s.len() ==> is_alphanumeric(#[trigger] s[i])
}

/// The ability list `["*"]`: every ability.
fn all_abilities() -> (r: Vec<String>)
    ensures
        r.deep_view() == seq!["*"@],
{
    let mut r: Vec<String> = Vec::new();
    r.push(String::from_str("*"));
    assert(r.deep_view() =~= seq!["*"@]);
    r
}

/// What a new token needs before it is stored: its plaintext secret, the
/// digest to store, and its abilities.
#[derive(Debug)]
pub struct NewToken {
    pub secret: String,
    pub digest: String,
    pub abilities: Vec<String>,
}

/// Draws a fresh secret of 64 letters and digits, hashes it, and settles the
/// abilities (`["*"]` where none were asked for). Fails only on a hashing
/// fault, which a key of sane length never causes.
pub fn prepare_token(hasher: &SecretHasher, abilities: Option<Vec<String>>) -> (r: Result<
    NewToken,
    AuthError,
>)
    ensures
        match r {
            Ok(n) => {
                &&& is_secret_text(n.secret@)
                &&& argon2_verdict(n.digest@, n.secret@, hasher.key@) == Some(true)
                &&& n.abilities.deep_view() == default_abilities(
                    match abilities {
                        Some(v) => Some(v.deep_view()),
                        None => None,
                    },
                )
            },
            Err(e) => e == AuthError::HashingFault,
        },
        byte_len(hasher.key@) <= u32::MAX ==> r is Ok,
{
    let secret = random_alphanumeric(SECRET_LEN);
    proof {
        lemma_ascii_byte_len(secret@);
    }
    let digest = hasher.make(secret.as_str())?;
    let abilities = match abilities {
        Some(v) => if v.len() > 0 {
            v
        } else {
            all_abilities()
        },
        None => all_abilities(),
    };
    Ok(NewToken { secret, digest, abilities })
}

impl PersonalAccessToken {
    /// Checks a presented secret against this record at `now`: the digest
    /// must accept it, then the token must not have expired.
    pub fn check(
        &self,
        secret: &str,
        hasher: &SecretHasher,
        policy: &ExpiryPolicy,
        now: i64,
    ) -> (r: Result<(), AuthError>)
        ensures
            r == check_result(self@, secret@, hasher.key@, *policy, now),
    {
        let valid = hasher.check(self.token.as_str(), secret)?;
        if !valid {
            return Err(AuthError::SecretMismatch);
        }
        if policy.is_expired(self.created_at, self.last_used_at, now) {
            return Err(AuthError::Expired);
        }
        Ok(())
    }

    /// The principal this record authenticates, where the presented secret
    /// passes `check` at `now`.
    pub fn into_principal(
        self,
        secret: &str,
        hasher: &SecretHasher,
        policy: &ExpiryPolicy,
        now: i64,
    ) -> (r: Result<Principal, AuthError>)
        ensures
            principal_result(r) == match check_result(self@, secret@, hasher.key@, *policy, now) {
                Ok(_) => Ok(token_principal(self@)),
                Err(e) => Err(e),
            },
    {
        self.check(secret, hasher, policy, now)?;
        Ok(Principal::Token { user_id: self.user_id, token_id: self.id, abilities: self.abilities })
    }

    /// Whether a token string holds the secret of this record and the record
    /// is still valid at `now`. A malformed string or an unreadable digest is
    /// an error, not `false`.
    pub fn verify_token(
        &self,
        token: String,
        hasher: &SecretHasher,
        policy: &ExpiryPolicy,
        now: i64,
    ) -> (r: Result<bool, AuthError>)
        ensures
            !is_token_text(token@) ==> r == Err::<bool, AuthError>(AuthError::MalformedToken),
            is_token_text(token@) ==> match check_result(
                self@,
                secret_part(token@),
                hasher.key@,
                *policy,
                now,
            ) {
                Ok(_) => r == Ok::<bool, AuthError>(true),
                Err(AuthError::HashingFault) => r == Err::<bool, AuthError>(
                    AuthError::HashingFault,
                ),
                Err(_) => r == Ok::<bool, AuthError>(false),
            },
    {
        let transient = TransientToken::parse(token)?;
        match self.check(transient.secret.as_str(), hasher, policy, now) {
            Ok(()) => Ok(true),
            Err(AuthError::HashingFault) => Err(AuthError::HashingFault),
            Err(_) => Ok(false),
        }
    }
}

/// Issues, verifies and revokes tokens against a store, with a keyed hasher
/// and an expiry policy.
pub struct TokenService {
    pub store: TokenStore,
    pub hasher: SecretHasher,
    pub policy: ExpiryPolicy,
}

impl TokenService {
    pub open spec fn wf(&self) -> bool {
        self.store.wf()
    }

    pub fn new(hasher: SecretHasher, policy: ExpiryPolicy) -> (r: TokenService)
        ensures
            r.wf(),
            r.store@ == Map::<i64, TokenRecord>::empty(),
            !r.store.exhausted(),
            r.hasher == hasher,
            r.policy == policy,
    {
        TokenService { store: TokenStore::new(), hasher, policy }
    }

    /// Creates a token for `user_id` with a fresh random secret of 64 letters
    /// and digits, and returns it with its plaintext secret, which is not
    /// kept. Fails only on a hashing fault or when the store has no id left.
    pub fn create(
        &mut self,
        user_id: i64,
        name: String,
        abilities: Option<Vec<String>>,
        now: i64,
    ) -> (r: Result<TransientToken, AuthError>)
        requires
            old(self).wf(),
        ensures
            final(self).wf(),
            final(self).hasher == old(self).hasher,
            final(self).policy == old(self).policy,
            final(self).store.exhausted() ==> old(self).store.exhausted() || r is Ok,
            match r {
                Ok(t) => is_secret_text(t.secret@) && issued(
                    old(self).store@,
                    final(self).store@,
                    old(self).hasher.key@,
                    user_id,
                    name@,
                    default_abilities(
                        match abilities {
                            Some(v) => Some(v.deep_view()),
                            None => None,
                        },
                    ),
                    t.id,
                    t.secret@,
                    now,
                ),
                Err(e) => final(self).store@ == old(self).store@ && (e == AuthError::HashingFault
                    || (e == AuthError::StorageFault && old(self).store.exhausted())),
            },
            (byte_len(old(self).hasher.key@) <= u32::MAX && !old(self).store.exhausted()) ==> r is Ok,
    {
        let prepared = prepare_token(&self.hasher, abilities)?;
        let ghost d = prepared.digest@;
        let id = self.store.insert(user_id, name, prepared.digest, prepared.abilities, now)?;
        proof {
            assert(final(self).store@[id].digest == d);
        }
        Ok(TransientToken { id, secret: prepared.secret })
    }

    /// The stored record that a token string names, whatever its secret.
    pub fn find_by_token(&self, token: String) -> (r: Result<PersonalAccessToken, AuthError>)
        requires
            self.wf(),
        ensures
            !is_token_text(token@) ==> (r matches Err(e) && e == AuthError::MalformedToken),
            is_token_text(token@) ==> match r {
                Ok(t) => self.store@.contains_key(token_id(token@)) && t@ == self.store@[token_id(
                    token@,
                )],
                Err(e) => !self.store@.contains_key(token_id(token@)) && e
                    == AuthError::TokenNotFound,
            },
    {
        let transient = TransientToken::parse(token)?;
        self.store.find_by_id(transient.id)
    }

    /// Verifies a token string at `now` and records its use. Every failure
    /// leaves the store as it was; the reasons stay distinct for logs.
    pub fn verify(&mut self, token: String, now: i64) -> (r: Result<Principal, AuthError>)
        requires
            old(self).wf(),
        ensures
            final(self).wf(),
            final(self).hasher == old(self).hasher,
            final(self).policy == old(self).policy,
            final(self).store.exhausted() == old(self).store.exhausted(),
            principal_result(r) == match verify_result(
                old(self).store@,
                old(self).hasher.key@,
                old(self).policy,
                token@,
                now,
            ) {
                Ok(rec) => Ok(token_principal(rec)),
                Err(e) => Err(e),
            },
            final(self).store@ == records_after(
                old(self).store@,
                verify_result(old(self).store@, old(self).hasher.key@, old(self).policy, token@, now),
                now,
            ),
    {
        let transient = TransientToken::parse(token)?;
        let row = self.store.find_by_id(transient.id)?;
        let id = row.id;
        let principal = row.into_principal(transient.secret.as_str(), &self.hasher, &self.policy, now)?;
        proof {
            self.store.lemma_ids();
        }
        // The use is recorded on a best-effort basis: the decision is made.
        let _ = self.store.touch(id, now);
        Ok(principal)
    }

    /// Verifies a token string at the current time.
    pub fn verify_now(&mut self, token: String) -> (r: Result<Principal, AuthError>)
        requires
            old(self).wf(),
        ensures
            final(self).wf(),
            final(self).hasher == old(self).hasher,
            final(self).policy == old(self).policy,
            exists|now: i64|
                {
                    &&& principal_result(r) == match verify_result(
                        old(self).store@,
                        old(self).hasher.key@,
                        old(self).policy,
                        token@,
                        now,
                    ) {
                        Ok(rec) => Ok(token_principal(rec)),
                        Err(e) => Err(e),
                    }
                    &&& final(self).store@ == records_after(
                        old(self).store@,
                        verify_result(
                            old(self).store@,
                            old(self).hasher.key@,
                            old(self).policy,
                            token@,
                            now,
                        ),
                        now,
                    )
                },
    {
        let now = now_seconds();
        self.verify(token, now)
    }

    /// Removes the token under `id` and returns how many rows went: zero
    /// where there was none, which is no error.
    pub fn delete(&mut self, id: i64) -> (r: u64)
        requires
            old(self).wf(),
        ensures
            final(self).wf(),
            final(self).hasher == old(self).hasher,
            final(self).policy == old(self).policy,
            final(self).store.exhausted() == old(self).store.exhausted(),
            final(self).store@ == old(self).store@.remove(id),
            r == (if old(self).store@.contains_key(id) {
                1u64
            } else {
                0u64
            }),
    {
        self.store.delete(id)
    }

    /// Resolves a request to its principal. The bearer header comes first,
    /// then the token cookie, then the session cookie; a credential that is
    /// present but fails is rejected outright, with no fallback.
    pub fn authenticate(
        &mut self,
        bearer: Extracted,
        token_cookie: Extracted,
        session: Extracted,
        now: i64,
    ) -> (r: Result<Principal, AuthError>)
        requires
            old(self).wf(),
        ensures
            final(self).wf(),
            final(self).hasher == old(self).hasher,
            final(self).policy == old(self).policy,
            final(self).store.exhausted() == old(self).store.exhausted(),
            principal_result(r) == authenticate_result(
                old(self).store@,
                old(self).hasher.key@,
                old(self).policy,
                bearer,
                token_cookie,
                session,
                now,
            ),
            final(self).store@ == match choice(bearer, token_cookie, session) {
                Chosen::Token(raw) => records_after(
                    old(self).store@,
                    verify_result(old(self).store@, old(self).hasher.key@, old(self).policy, raw, now),
                    now,
                ),
                _ => old(self).store@,
            },
    {
        let credential = select_credential(bearer, token_cookie, session)?;
        match credential {
            Credential::Token(raw) => self.verify(raw, now),
            Credential::Session(identity) => {
                let user_id = resolve_session(identity.as_str())?;
                Ok(Principal::Session { user_id })
            },
        }
    }
}

/// A token fresh from `create` verifies at once, with the secret handed out,
/// and yields the user it was created for (given a lifetime that is not
/// already over at creation).
pub proof fn lemma_created_token_verifies(
    before: Map<i64, TokenRecord>,
    after: Map<i64, TokenRecord>,
    key: Seq<char>,
    policy: ExpiryPolicy,
    user_id: i64,
    name: Seq<char>,
    abilities: Seq<Seq<char>>,
    id: i64,
    secret: Seq<char>,
    now: i64,
)
    requires
        issued(before, after, key, user_id, name, abilities, id, secret, now),
        is_secret_text(secret),
        policy.ttl matches Some(ttl) ==> ttl > 0,
    ensures
        verify_result(after, key, policy, crate::token::token_text(id as int, secret), now)
            == Ok::<TokenRecord, AuthError>(after[id]),
        after[id].user_id == user_id,
{
    assert(crate::token::no_bar(secret)) by {
        assert forall|i: int| 0 <= i < secret.len() implies secret[i] != '|' by {
            assert(is_alphanumeric(secret[i]));
        }
    }
    crate::token::lemma_parse_format(id, secret);
}

/// A verification succeeds only where the stored digest accepts the
/// presented secret: a secret that the digest refuses is never let in.
pub proof fn lemma_verify_needs_matching_secret(
    records: Map<i64, TokenRecord>,
    key: Seq<char>,
    policy: ExpiryPolicy,
    raw: Seq<char>,
    now: i64,
)
    requires
        verify_result(records, key, policy, raw, now) is Ok,
    ensures
        is_token_text(raw),
        records.contains_key(token_id(raw)),
        argon2_verdict(records[token_id(raw)].digest, secret_part(raw), key) == Some(true),
{
}

/// After a token is deleted, no token string that names it verifies, and a
/// second delete finds nothing to remove.
pub proof fn lemma_deleted_token_rejected(
    records: Map<i64, TokenRecord>,
    key: Seq<char>,
    policy: ExpiryPolicy,
    id: i64,
    raw: Seq<char>,
    now: i64,
)
    requires
        is_token_text(raw),
        token_id(raw) == id,
    ensures
        verify_result(records.remove(id), key, policy, raw, now) == Err::<TokenRecord, AuthError>(
            AuthError::TokenNotFound,
        ),
        !records.remove(id).contains_key(id),
{
}

/// A bearer credential that is present decides the request alone: where it
/// is malformed or fails verification, the request is rejected whatever the
/// cookies hold.
pub proof fn lemma_bearer_no_fallback(
    records: Map<i64, TokenRecord>,
    key: Seq<char>,
    policy: ExpiryPolicy,
    bearer: Extracted,
    token_cookie: Extracted,
    session: Extracted,
    now: i64,
)
    requires
        !(bearer is Absent),
        bearer matches Extracted::Found(raw) ==> verify_result(records, key, policy, raw@, now) is Err,
    ensures
        authenticate_result(records, key, policy, bearer, token_cookie, session, now) is Err,
{
}

} // verus!
