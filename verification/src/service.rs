use vstd::prelude::*;
use vstd::string::StringSliceAdditionalSpecFns;
use crate::keys::{fresh_candidate, key_in_range, spec_parse_i64};
use crate::levels::{
    lemma_decimal_text_bytes, lemma_level_round_trip, parse_level, spec_level_of_text,
};
use crate::record::{Details, DetailsView};
use crate::store::{lookup_spec, MemStore};

verus! {

/// What the authentication gate decides about a request before any store
/// access: either the request may proceed to a lookup of the parsed key, or
/// it is rejected outright.
pub enum AuthDecision {
    /// The request carries a bearer token and a well-formed key: look it up.
    Proceed(i64),
    /// The path key does not parse as an integer: a client error, distinct
    /// from an authentication rejection.
    MalformedKey,
    /// No bearer token is present: an authentication rejection.
    MissingToken,
}

/// The middleware's verdict on a request: attach the resolved record and
/// continue, or fail the request.
pub enum AuthOutcome {
    /// The key resolved; the record is attached to the request.
    Verified(Details),
    /// The path key is malformed: a client error.
    BadRequest,
    /// The token is missing, or the key has no record: an authentication
    /// rejection.
    Unauthorized,
}

/// Screens a request using nothing but the request itself — this function
/// takes no store, so a request rejected here is rejected before any store
/// access. The token must be present (its content is not validated), and the
/// path key must parse strictly as an integer.
pub fn screen_request(has_bearer: bool, raw_key: &str) -> (d: AuthDecision)
    ensures
        match d {
            AuthDecision::MissingToken => !has_bearer,
            AuthDecision::MalformedKey => has_bearer && spec_parse_i64(raw_key.spec_bytes())
                is None,
            AuthDecision::Proceed(k) => has_bearer && spec_parse_i64(raw_key.spec_bytes()) == Some(
                k as int,
            ),
        },
{
    if !has_bearer {
        return AuthDecision::MissingToken;
    }
    match crate::keys::parse_key(raw_key) {
        Some(k) => AuthDecision::Proceed(k),
        None => AuthDecision::MalformedKey,
    }
}

/// Resolves the two field reads of a lookup into a record: both fields must
/// be present, and the level field — which the store keeps as text — must
/// read back as a number, or the lookup fails and the request is rejected as
/// unauthorized. This is the step after the store has answered, so it is
/// exact for every store answer.
pub fn resolve_lookup(org: Option<String>, level: Option<String>) -> (r: Option<Details>)
    ensures
        match r {
            Some(d) => {
                &&& org matches Some(o) && d@.org == o@
                &&& level matches Some(t) && spec_level_of_text(t@) == Some(
                    d@.auth_level as int,
                )
            },
            None => org is None || level is None || (level matches Some(t)
                && spec_level_of_text(t@) is None),
        },
{
    match (org, level) {
        (Some(o), Some(t)) => match parse_level(t.as_str()) {
            Some(l) => Some(Details::new(o, l)),
            None => None,
        },
        _ => None,
    }
}

/// The authentication middleware, run against a store: screens the request,
/// and only for a screened request fetches the key's fields and resolves
/// them into the record that downstream handlers read. Missing token and
/// unknown key are both answered as unauthorized — the two are deliberately
/// indistinguishable to the caller — while a malformed key is a distinct
/// client error.
pub fn validate_request(store: &MemStore, has_bearer: bool, raw_key: &str) -> (r: AuthOutcome)
    ensures
        match r {
            AuthOutcome::Verified(d) => {
                &&& has_bearer
                &&& spec_parse_i64(raw_key.spec_bytes()) matches Some(k) && lookup_spec(
                    store@,
                    k as i64,
                ) == Some(d@)
            },
            AuthOutcome::BadRequest => has_bearer && spec_parse_i64(raw_key.spec_bytes()) is None,
            AuthOutcome::Unauthorized => !has_bearer || (spec_parse_i64(raw_key.spec_bytes())
                matches Some(k) && lookup_spec(store@, k as i64) is None),
        },
{
    match screen_request(has_bearer, raw_key) {
        AuthDecision::MissingToken => AuthOutcome::Unauthorized,
        AuthDecision::MalformedKey => AuthOutcome::BadRequest,
        AuthDecision::Proceed(k) => {
            let org = store.get_org(k);
            let level = store.get_level_text(k);
            proof {
                store.lemma_levels_bounded();
                if store@.dom().contains(k) {
                    lemma_decimal_text_bytes(store@[k].auth_level);
                    lemma_level_round_trip(store@[k].auth_level);
                }
            }
            match resolve_lookup(org, level) {
                Some(d) => AuthOutcome::Verified(d),
                None => AuthOutcome::Unauthorized,
            }
        },
    }
}

/// One attempt of the issuance handler against a store: draws a random
/// candidate from the issuance range and, if the store does not already hold
/// it, writes the complete record and returns the key. An attempt can fail
/// only on a collision — some in-range key is already stored — so on an
/// empty store the first attempt always issues; a collision leaves the store
/// unchanged and the caller redraws. The issuance protocol puts no bound on
/// redraws, so the retry loop carries no termination measure and is driven
/// by the caller.
pub fn try_create_api_key(store: &mut MemStore, org: String, auth_level: usize) -> (r: Option<
    i64,
>)
    ensures
        match r {
            Some(k) => {
                &&& key_in_range(k as int)
                &&& !old(store)@.dom().contains(k)
                &&& final(store)@ == old(store)@.insert(
                    k,
                    DetailsView { org: org@, auth_level: auth_level as nat },
                )
            },
            None => {
                &&& final(store)@ == old(store)@
                &&& exists|c: i64| key_in_range(c as int) && old(store)@.dom().contains(c)
            },
        },
{
    let key = fresh_candidate();
    if store.exists_key(key) {
        None
    } else {
        store.put_record(key, Details::new(org, auth_level));
        Some(key)
    }
}

/// The help text that the root route answers with.
pub fn index_body() -> (r: &'static str)
    ensures
        r@ == "goto /create to create a api key"@,
{
    "goto /create to create a api key"
}

/// Round trip: issuing record `d` under key `k` and then looking `k` up
/// yields exactly the record that was submitted.
pub proof fn lemma_issue_then_lookup(s: Map<i64, DetailsView>, k: i64, d: DetailsView)
    ensures
        lookup_spec(s.insert(k, d), k) == Some(d),
{
}

/// A key that was never issued has no record: its lookup can only be
/// rejected, never answered with a record.
pub proof fn lemma_unknown_key_has_no_record(s: Map<i64, DetailsView>, k: i64)
    requires
        !s.dom().contains(k),
    ensures
        lookup_spec(s, k) is None,
{
}

/// Two back-to-back issuances never hand out the same key: the second
/// issuance checks freshness against the store that already holds the first
/// key.
pub proof fn lemma_sequential_issues_distinct(
    s: Map<i64, DetailsView>,
    k1: i64,
    d1: DetailsView,
    k2: i64,
)
    requires
        !s.dom().contains(k1),
        !s.insert(k1, d1).dom().contains(k2),
    ensures
        k1 != k2,
{
}

} // verus!
