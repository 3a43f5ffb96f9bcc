//! Calls into the outside crates that the logic needs: `chrono` for RFC 3339
//! timestamps, `base64` for the client's basic authentication, and `url` for
//! the endpoints of the updater and of telemetry and for deep links.
use vstd::prelude::*;

use base64::Engine;

use crate::deep_link::pair_views;
use crate::messages::opt_view;

verus! {

// ---------------------------------------------------------------------------
// chrono
// ---------------------------------------------------------------------------

/// The RFC 3339 form of the UTC instant `millis` milliseconds after the Unix
/// epoch, as `chrono` writes it, or `None` where `chrono` cannot represent
/// that instant.
pub uninterp spec fn rfc3339_of_millis(millis: i64) -> Option<Seq<char>>;

/// Calls `DateTime::<Utc>::from_timestamp_millis` and, on success,
/// `DateTime::to_rfc3339`. The text is named by `rfc3339_of_millis`: it
/// depends on `millis` alone (the offset is always UTC).
#[verifier::external_body]
pub(crate) fn ms_to_rfc3339(millis: i64) -> (r: Option<String>)
    ensures
        match r {
            Some(s) => rfc3339_of_millis(millis) == Some(s@),
            None => rfc3339_of_millis(millis) is None,
        },
{
    match chrono::DateTime::<chrono::Utc>::from_timestamp_millis(millis) {
        Some(t) => Some(t.to_rfc3339()),
        None => None,
    }
}

// ---------------------------------------------------------------------------
// base64
// ---------------------------------------------------------------------------

/// The character for a 6-bit value in the standard base64 alphabet of
/// RFC 4648 (`A`-`Z`, `a`-`z`, `0`-`9`, `+`, `/`).
pub open spec fn base64_digit(v: int) -> char {
    if v < 26 {
        ((v + 65) as u32) as char
    } else if v < 52 {
        ((v - 26 + 97) as u32) as char
    } else if v < 62 {
        ((v - 52 + 48) as u32) as char
    } else if v == 62 {
        '+'
    } else {
        '/'
    }
}

/// The standard base64 encoding of RFC 4648, with `=` padding: each group of
/// three bytes becomes four characters, a final group of one or two bytes
/// becomes two or three characters and padding.
pub open spec fn base64_standard(b: Seq<u8>) -> Seq<char>
    decreases b.len(),
{
    if b.len() == 0 {
        Seq::empty()
    } else {
        let x0 = b[0] as int;
        let x1 = if b.len() > 1 {
            b[1] as int
        } else {
            0
        };
        let x2 = if b.len() > 2 {
            b[2] as int
        } else {
            0
        };
        let c0 = base64_digit(x0 / 4);
        let c1 = base64_digit((x0 % 4) * 16 + x1 / 16);
        let c2 = base64_digit((x1 % 16) * 4 + x2 / 64);
        let c3 = base64_digit(x2 % 64);
        if b.len() == 1 {
            seq![c0, c1, '=', '=']
        } else if b.len() == 2 {
            seq![c0, c1, c2, '=']
        } else {
            seq![c0, c1, c2, c3] + base64_standard(b.skip(3))
        }
    }
}

/// Calls `Engine::encode` of `base64::engine::general_purpose::STANDARD`,
/// the RFC 4648 alphabet with padding. It panics when the length of the
/// output does not fit in `usize`, which `requires` leaves out.
#[verifier::external_body]
pub(crate) fn encode_base64(bytes: &[u8]) -> (r: String)
    requires
        (bytes@.len() / 3) * 4 + 4 <= usize::MAX,
    ensures
        r@ == base64_standard(bytes@),
{
    base64::engine::general_purpose::STANDARD.encode(bytes)
}

// ---------------------------------------------------------------------------
// url
// ---------------------------------------------------------------------------
//
// A URL is held as its serialization (`Url::as_str`), a plain string.

/// The serialization of the URL that `Url::parse` makes of `input`, or
/// `None` when `input` is not an absolute URL.
pub uninterp spec fn url_parse(input: Seq<char>) -> Option<Seq<char>>;

/// Calls `Url::parse` and keeps the parsed URL's serialization
/// (`From<Url> for String`). The result is named by `url_parse`: it depends
/// on `input` alone.
#[verifier::external_body]
pub(crate) fn parse_url(input: &str) -> (r: Option<String>)
    ensures
        opt_view(r) == url_parse(input@),
{
    match url::Url::parse(input) {
        Ok(u) => Some(u.into()),
        Err(_) => None,
    }
}

/// The serialization of what `Url::join` gives for `input` on the URL held
/// as the text `base`, or `None` when that fails (or `base` is not a URL).
pub uninterp spec fn url_join(base: Seq<char>, input: Seq<char>) -> Option<Seq<char>>;

/// Calls `Url::join` with `input` on the URL held as the text `base` (the
/// text is turned back into a `Url` by `Url::parse`), and keeps the joined
/// URL's serialization. The result is named by `url_join`: it depends on
/// `base` and `input` alone.
#[verifier::external_body]
pub(crate) fn join_url(base: &str, input: &str) -> (r: Option<String>)
    ensures
        opt_view(r) == url_join(base@, input@),
{
    match url::Url::parse(base) {
        Ok(b) => match b.join(input) {
            Ok(u) => Some(u.into()),
            Err(_) => None,
        },
        Err(_) => None,
    }
}

/// The decoded query pairs (`application/x-www-form-urlencoded`) of the URL
/// that `Url::parse` makes of `url`, in order, or `None` when `url` is not an
/// absolute URL.
pub uninterp spec fn url_query_pairs(url: Seq<char>) -> Option<Seq<(Seq<char>, Seq<char>)>>;

/// Calls `Url::query_pairs` on the URL held as the text `url` (turned back
/// into a `Url` by `Url::parse`), each pair as owned strings. The result is
/// named by `url_query_pairs`: it depends on `url` alone.
#[verifier::external_body]
pub(crate) fn query_pairs_of(url: &str) -> (r: Option<Vec<(String, String)>>)
    ensures
        match r {
            Some(v) => url_query_pairs(url@) == Some(pair_views(v@)),
            None => url_query_pairs(url@) is None,
        },
{
    match url::Url::parse(url) {
        Ok(u) => Some(u.query_pairs().map(|(k, v)| (k.into_owned(), v.into_owned())).collect()),
        Err(_) => None,
    }
}

} // verus!
