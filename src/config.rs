//! The deployment's settings, and what is derived from them.

use vstd::prelude::*;

use crate::expiry::{minutes_to_seconds, ExpiryPolicy};
use crate::hash::SecretHasher;
use crate::token::chars_of;

verus! {

/// The settings of a deployment. `token_ttl` is in minutes.
#[derive(Clone, Debug)]
pub struct Config {
    pub app_key: String,
    pub app_domain: String,
    pub app_port: String,
    pub app_address: String,
    pub app_secure: bool,
    pub app_debug: bool,
    pub cors_methods: Vec<String>,
    pub cors_origins: Vec<String>,
    pub cors_credentials: bool,
    pub db_url: String,
    pub token_ttl: Option<i64>,
    pub token_refresh: bool,
}

/// `s` ends with `suffix`.
pub open spec fn ends_with(s: Seq<char>, suffix: Seq<char>) -> bool {
    suffix.len() <= s.len() && s.skip(s.len() - suffix.len()) == suffix
}

/// Whether the list is the single entry `*`.
pub open spec fn is_wildcard(list: Seq<Seq<char>>) -> bool {
    list.len() == 1 && list[0] == "*"@
}

impl Config {
    /// The expiry policy that the token settings describe.
    pub fn expiry_policy(&self) -> (r: ExpiryPolicy)
        ensures
            r.refresh == self.token_refresh,
            r.ttl == match self.token_ttl {
                None => None,
                Some(m) => Some(minutes_to_seconds(m)),
            },
    {
        ExpiryPolicy::from_minutes(self.token_ttl, self.token_refresh)
    }

    /// The hasher keyed with the deployment's secret key.
    pub fn hasher(&self) -> (r: SecretHasher)
        ensures
            r.key@ == self.app_key@,
    {
        SecretHasher::new(self.app_key.clone())
    }

    /// Whether cross-origin requests may use any method.
    pub fn any_cors_method(&self) -> (r: bool)
        ensures
            r == is_wildcard(self.cors_methods.deep_view()),
    {
        is_star_list(&self.cors_methods)
    }

    /// Whether cross-origin requests may come from any origin.
    pub fn any_cors_origin(&self) -> (r: bool)
        ensures
            r == is_wildcard(self.cors_origins.deep_view()),
    {
        is_star_list(&self.cors_origins)
    }

    /// Whether an origin may make cross-origin requests: it ends with one of
    /// the configured domains.
    pub fn origin_allowed(&self, origin: &str) -> (r: bool)
        ensures
            r == exists|i: int|
                0 <= i < self.cors_origins@.len() && ends_with(
                    origin@,
                    #[trigger] self.cors_origins@[i]@,
                ),
    {
        let o = chars_of(origin);
        let mut i: usize = 0;
        while i < self.cors_origins.len()
            invariant
                i <= self.cors_origins@.len(),
                o@ == origin@,
                forall|j: int| 0 <= j < i ==> !ends_with(origin@, #[trigger] self.cors_origins@[j]@),
            decreases self.cors_origins@.len() - i,
        {
            let d = chars_of(self.cors_origins[i].as_str());
            if chars_end_with(&o, &d) {
                return true;
            }
            i = i + 1;
        }
        false
    }
}

/// Whether `s` ends with `suffix`.
pub fn chars_end_with(s: &Vec<char>, suffix: &Vec<char>) -> (r: bool)
    ensures
        r == ends_with(s@, suffix@),
{
    if suffix.len() > s.len() {
        return false;
    }
    let n = s.len();
    let off = n - suffix.len();
    let mut k: usize = 0;
    while k < suffix.len()
        invariant
            n == s@.len(),
            off + suffix@.len() == n,
            k <= suffix@.len(),
            forall|j: int| 0 <= j < k ==> s@[off + j] == suffix@[j],
        decreases suffix@.len() - k,
    {
        if s[off + k] != suffix[k] {
            assert(s@.skip(off as int)[k as int] != suffix@[k as int]);
            return false;
        }
        k = k + 1;
    }
    assert(s@.skip(off as int) =~= suffix@);
    true
}

/// Whether the list is the single entry `*`.
fn is_star_list(list: &Vec<String>) -> (r: bool)
    ensures
        r == is_wildcard(list.deep_view()),
{
    if list.len() != 1 {
        return false;
    }
    let c = chars_of(list[0].as_str());
    proof {
        reveal_strlit("*");
    }
    let r = c.len() == 1 && c[0] == '*';
    assert(r == (list.deep_view()[0] =~= "*"@));
    r
}

} // verus!
