//! Deep links that arm a pairing session: `...?nonce=...&origin=...`.
use vstd::prelude::*;

use crate::app_state::{AppState, AppStateView, SessionError, arm_step, at_reading};
use crate::bindings::{query_pairs_of, url_query_pairs};
use crate::text::str_eq;

verus! {

/// The value of the first query pair whose key is `key`.
pub open spec fn first_value(pairs: Seq<(Seq<char>, Seq<char>)>, key: Seq<char>) -> Option<
    Seq<char>,
>
    decreases pairs.len(),
{
    if pairs.len() == 0 {
        None
    } else if pairs[0].0 == key {
        Some(pairs[0].1)
    } else {
        first_value(pairs.drop_first(), key)
    }
}

/// The decoded query pairs of a deep link, as characters.
pub open spec fn pair_views(pairs: Seq<(String, String)>) -> Seq<(Seq<char>, Seq<char>)> {
    pairs.map_values(|p: (String, String)| (p.0@, p.1@))
}

/// The value of the first query pair whose key is `key`.
pub fn query_value(pairs: &Vec<(String, String)>, key: &str) -> (r: Option<String>)
    ensures
        match r {
            Some(v) => first_value(pair_views(pairs@), key@) == Some(v@),
            None => first_value(pair_views(pairs@), key@) is None,
        },
{
    let ghost pv = pair_views(pairs@);
    let mut i: usize = 0;
    assert(pv.skip(0) =~= pv);
    while i < pairs.len()
        invariant
            i <= pairs@.len(),
            pv == pair_views(pairs@),
            first_value(pv, key@) == first_value(pv.skip(i as int), key@),
        decreases pairs@.len() - i,
    {
        assert(pv.skip(i as int)[0] == (pairs@[i as int].0@, pairs@[i as int].1@));
        if str_eq(pairs[i].0.as_str(), key) {
            return Some(pairs[i].1.clone());
        }
        assert(pv.skip(i as int).drop_first() =~= pv.skip(i + 1));
        i += 1;
    }
    None
}

/// Why a deep link armed no session.
#[derive(Clone, Debug)]
pub enum DeepLinkError {
    /// The deep link is not an absolute URL.
    InvalidUrl,
    MissingNonce,
    MissingOrigin,
    Session(SessionError),
}

impl DeepLinkError {
    /// The text the user is shown for this error.
    pub open spec fn text(self) -> Seq<char> {
        match self {
            DeepLinkError::InvalidUrl => "The deep link is not a valid URL."@,
            DeepLinkError::MissingNonce => "The deep link did not include a nonce."@,
            DeepLinkError::MissingOrigin => "The deep link did not include an origin."@,
            DeepLinkError::Session(e) => e@.text(),
        }
    }

    /// The text the user is shown for this error.
    pub fn message(&self) -> (r: String)
        ensures
            r@ == self.text(),
    {
        match self {
            DeepLinkError::InvalidUrl => String::from_str("The deep link is not a valid URL."),
            DeepLinkError::MissingNonce => String::from_str("The deep link did not include a nonce."),
            DeepLinkError::MissingOrigin => String::from_str("The deep link did not include an origin."),
            DeepLinkError::Session(e) => e.message(),
        }
    }
}

/// What arming a session from a deep link's query pairs does: without a
/// `nonce` or without an `origin` it fails and leaves the state as it was;
/// otherwise it arms the first `nonce` for the first `origin` at a fresh
/// clock reading (`after.clock_floor`, no earlier than any before it), and
/// fails as arming does.
pub open spec fn arms_from_pairs(
    before: AppStateView,
    after: AppStateView,
    pairs: Seq<(Seq<char>, Seq<char>)>,
    r: Result<(), DeepLinkError>,
) -> bool {
    &&& first_value(pairs, "nonce"@) is None ==> (r matches Err(DeepLinkError::MissingNonce)
        && after == before)
    &&& (first_value(pairs, "nonce"@) is Some && first_value(pairs, "origin"@) is None) ==> (
    r matches Err(DeepLinkError::MissingOrigin) && after == before)
    &&& (first_value(pairs, "nonce"@) is Some && first_value(pairs, "origin"@) is Some) ==> ({
        let t = after.clock_floor;
        let (next, res) = arm_step(
            at_reading(before, t),
            first_value(pairs, "nonce"@).unwrap(),
            first_value(pairs, "origin"@).unwrap(),
            t,
        );
        &&& t >= before.clock_floor
        &&& after == next
        &&& res is Ok ==> r is Ok
        &&& res matches Err(e) ==> (r matches Err(DeepLinkError::Session(se)) && se@ == e)
    })
}

/// Arms a pairing session from the decoded query pairs of a deep link: the
/// first `nonce` and the first `origin`.
pub fn handle_url(state: &mut AppState, query_pairs: &Vec<(String, String)>) -> (r: Result<
    (),
    DeepLinkError,
>)
    ensures
        arms_from_pairs(old(state)@, final(state)@, pair_views(query_pairs@), r),
{
    let nonce = match query_value(query_pairs, "nonce") {
        Some(n) => n,
        None => {
            return Err(DeepLinkError::MissingNonce);
        },
    };
    let origin = match query_value(query_pairs, "origin") {
        Some(o) => o,
        None => {
            return Err(DeepLinkError::MissingOrigin);
        },
    };
    let ghost nonce_view = nonce@;
    let ghost origin_view = origin@;
    let res = state.arm_session(nonce, origin);
    let out = match res {
        Ok(()) => Ok(()),
        Err(e) => Err(DeepLinkError::Session(e)),
    };
    proof {
        assert(first_value(pair_views(query_pairs@), "nonce"@).unwrap() == nonce_view);
        assert(first_value(pair_views(query_pairs@), "origin"@).unwrap() == origin_view);
    }
    out
}

/// Arms a pairing session from a deep link: the first `nonce` and the first
/// `origin` of its decoded query. A link that is not a URL arms nothing.
pub fn handle_deep_link(state: &mut AppState, url: &str) -> (r: Result<(), DeepLinkError>)
    ensures
        match url_query_pairs(url@) {
            None => r matches Err(DeepLinkError::InvalidUrl) && final(state)@ == old(state)@,
            Some(pairs) => arms_from_pairs(old(state)@, final(state)@, pairs, r),
        },
{
    match query_pairs_of(url) {
        Some(pairs) => handle_url(state, &pairs),
        None => Err(DeepLinkError::InvalidUrl),
    }
}

} // verus!
