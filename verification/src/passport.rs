use vstd::prelude::*;
use vstd::string::StringExecFns;
use crate::numbers::{decimal_string, spec_decimal};

verus! {

/// What a signed access token asserts: the subject (the brawler's id in
/// decimal), and the expiry and issuance instants in seconds since the
/// Unix epoch.
#[derive(Debug)]
pub struct Claims {
    pub sub: String,
    pub exp: usize,
    pub iat: usize,
}

/// What a successful authentication hands the caller: the bearer token,
/// when it expires, and the brawler's presentation data.
#[derive(Debug)]
pub struct Passport {
    pub token_type: String,
    pub access_token: String,
    pub expires_in: usize,
    pub display_name: String,
    pub avatar_url: Option<String>,
}

/// The instant a passport issued at `now_ts` expires: its lifetime in days
/// after issuance.
pub open spec fn spec_expiry(now_ts: i64, ttl_days: i64) -> int {
    now_ts + ttl_days * 86400
}

impl Claims {
    /// The claims a token for this brawler asserts when issued at `now_ts`
    /// with a lifetime of `ttl_days` days.
    pub fn for_brawler(brawler_id: i32, now_ts: i64, ttl_days: i64) -> (r: Claims)
        requires
            0 <= brawler_id,
            0 <= now_ts,
            0 <= ttl_days,
            spec_expiry(now_ts, ttl_days) <= usize::MAX,
            spec_expiry(now_ts, ttl_days) <= i64::MAX,
        ensures
            r.sub@ == spec_decimal(brawler_id as nat),
            r.exp == spec_expiry(now_ts, ttl_days),
            r.iat == now_ts,
    {
        let exp: i64 = now_ts + ttl_days * 86400;
        Claims { sub: decimal_string(brawler_id as u64), exp: exp as usize, iat: now_ts as usize }
    }
}

impl Passport {
    /// Assembles a passport around a freshly signed access token. Signing
    /// the token is the token collaborator's work; everything the passport
    /// states about it is fixed here.
    pub fn new(
        display_name: String,
        avatar_url: Option<String>,
        access_token: String,
        now_ts: i64,
        ttl_days: i64,
    ) -> (r: Passport)
        requires
            0 <= now_ts,
            0 <= ttl_days,
            spec_expiry(now_ts, ttl_days) <= usize::MAX,
            spec_expiry(now_ts, ttl_days) <= i64::MAX,
        ensures
            r.token_type@ == "Bearer"@,
            r.access_token@ == access_token@,
            r.expires_in == spec_expiry(now_ts, ttl_days),
            r.display_name@ == display_name@,
            match (r.avatar_url, avatar_url) {
                (Some(a), Some(b)) => a@ == b@,
                (None, None) => true,
                _ => false,
            },
    {
        let exp: i64 = now_ts + ttl_days * 86400;
        Passport {
            token_type: String::from_str("Bearer"),
            access_token,
            expires_in: exp as usize,
            display_name,
            avatar_url,
        }
    }
}

} // verus!
