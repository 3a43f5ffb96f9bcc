//! The body of a telemetry event.
//!
//! An event names the website and the event, and carries the companion's
//! version, operating system and architecture, and nothing else: no
//! account, game or client data.
use vstd::prelude::*;

use crate::deep_link::pair_views;

verus! {

/// A telemetry event, as posted to Umami.
#[derive(Debug)]
pub struct TelemetryEvent {
    /// Always `event`.
    pub event_type: &'static str,
    /// Always `scrimora-link`.
    pub hostname: &'static str,
    /// Always `Scrimora Link`.
    pub title: &'static str,
    /// Always `/desktop`.
    pub url: &'static str,
    pub website: String,
    pub name: String,
    /// The event's data, as key and value.
    pub data: Vec<(String, String)>,
}

/// The data every event carries: the version, operating system and
/// architecture, in that order.
pub open spec fn event_data(version: Seq<char>, os: Seq<char>, arch: Seq<char>) -> Seq<
    (Seq<char>, Seq<char>),
> {
    seq![("version"@, version), ("os"@, os), ("arch"@, arch)]
}

/// The event `name` for the website `website_id`, sent by a companion of the
/// given version on the given operating system and architecture.
pub fn telemetry_event(website_id: &str, name: &str, version: &str, os: &str, arch: &str) -> (r:
    TelemetryEvent)
    ensures
        r.event_type@ == "event"@,
        r.hostname@ == "scrimora-link"@,
        r.title@ == "Scrimora Link"@,
        r.url@ == "/desktop"@,
        r.website@ == website_id@,
        r.name@ == name@,
        pair_views(r.data@) == event_data(version@, os@, arch@),
{
    let mut data: Vec<(String, String)> = Vec::new();
    data.push((String::from_str("version"), String::from_str(version)));
    data.push((String::from_str("os"), String::from_str(os)));
    data.push((String::from_str("arch"), String::from_str(arch)));
    assert(pair_views(data@) =~= event_data(version@, os@, arch@));
    TelemetryEvent {
        event_type: "event",
        hostname: "scrimora-link",
        title: "Scrimora Link",
        url: "/desktop",
        website: String::from_str(website_id),
        name: String::from_str(name),
        data,
    }
}

} // verus!
