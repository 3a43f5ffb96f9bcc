//! The messages exchanged with the web app over the loopback bridge.
use vstd::prelude::*;

verus! {

/// A message from the web app.
#[derive(Debug)]
pub enum ClientMessage {
    Hello { nonce: String, origin: String },
    GetRecentCustomGames,
    ImportGame { game_id: i64 },
    Ping,
}

/// A message to the web app. `P` carries the payloads of an imported game,
/// which the bridge holds as it received them from the client.
#[derive(Debug)]
pub enum ServerMessage<P> {
    Ready { companion_version: String, bridge_port: u16 },
    RecentCustomGames { games: Vec<RecentGameSummary> },
    ImportPayload(P),
    Error { code: &'static str, message: String },
    Pong,
}

/// A custom game from the match history, as the web app lists it.
#[derive(Clone, Debug)]
pub struct RecentGameSummary {
    pub game_id: i64,
    /// The creation time, in RFC 3339.
    pub played_at: String,
    pub duration_minutes: i64,
    pub game_version: Option<String>,
    pub queue_label: Option<String>,
    pub observer_label: Option<String>,
    pub participant_names: Vec<String>,
}

/// Where an imported game came from.
#[derive(Clone, Debug)]
pub struct SourceContext {
    pub observer_puuid: Option<String>,
    pub observer_riot_id: Option<String>,
    pub platform_id: Option<String>,
    pub region: Option<String>,
    pub game_id: i64,
    pub client_version: Option<String>,
    pub transport: &'static str,
}

/// The characters of an optional string.
pub open spec fn opt_view(o: Option<String>) -> Option<Seq<char>> {
    match o {
        Some(s) => Some(s@),
        None => None,
    }
}

/// What a game summary holds.
pub struct SummaryView {
    pub game_id: i64,
    pub played_at: Seq<char>,
    pub duration_minutes: i64,
    pub game_version: Option<Seq<char>>,
    pub queue_label: Option<Seq<char>>,
    pub observer_label: Option<Seq<char>>,
    pub participant_names: Seq<Seq<char>>,
}

impl View for RecentGameSummary {
    type V = SummaryView;

    open spec fn view(&self) -> SummaryView {
        SummaryView {
            game_id: self.game_id,
            played_at: self.played_at@,
            duration_minutes: self.duration_minutes,
            game_version: opt_view(self.game_version),
            queue_label: opt_view(self.queue_label),
            observer_label: opt_view(self.observer_label),
            participant_names: self.participant_names@.map_values(|s: String| s@),
        }
    }
}

/// What a source context holds.
pub struct SourceContextView {
    pub observer_puuid: Option<Seq<char>>,
    pub observer_riot_id: Option<Seq<char>>,
    pub platform_id: Option<Seq<char>>,
    pub region: Option<Seq<char>>,
    pub game_id: i64,
    pub client_version: Option<Seq<char>>,
    pub transport: Seq<char>,
}

impl View for SourceContext {
    type V = SourceContextView;

    open spec fn view(&self) -> SourceContextView {
        SourceContextView {
            observer_puuid: opt_view(self.observer_puuid),
            observer_riot_id: opt_view(self.observer_riot_id),
            platform_id: opt_view(self.platform_id),
            region: opt_view(self.region),
            game_id: self.game_id,
            client_version: opt_view(self.client_version),
            transport: self.transport@,
        }
    }
}

} // verus!
