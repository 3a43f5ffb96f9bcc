//! The decisions of the loopback websocket bridge: which port to listen on,
//! how the pairing handshake is answered, and what each later message asks
//! for. The socket itself, and the requests to the client, stay with the
//! caller, which hands each outcome back.
use vstd::prelude::*;

use crate::app_state::{AppState, at_reading, opt_str_view, verify_step};
use crate::messages::{ClientMessage, RecentGameSummary, ServerMessage};

verus! {

/// The number of loopback ports the bridge may listen on.
pub const BRIDGE_PORT_COUNT: usize = 5;

/// The first loopback port the bridge tries.
pub const FIRST_BRIDGE_PORT: u16 = 36130;

/// The websocket subprotocol of the bridge.
pub fn bridge_protocol() -> (r: &'static str)
    ensures
        r@ == "scrimora-link.v1"@,
{
    "scrimora-link.v1"
}

/// The port to try at the given attempt: `36130` to `36134` in turn, then
/// none.
pub fn bridge_port_candidate(attempt: usize) -> (r: Option<u16>)
    ensures
        attempt < BRIDGE_PORT_COUNT ==> r == Some((FIRST_BRIDGE_PORT + attempt) as u16),
        attempt >= BRIDGE_PORT_COUNT ==> r is None,
{
    if attempt < BRIDGE_PORT_COUNT {
        Some(FIRST_BRIDGE_PORT + attempt as u16)
    } else {
        None
    }
}

/// What the bridge does after an attempt to bind a port.
#[derive(Debug, Clone, Copy, PartialEq, Eq, Structural)]
pub enum BindDecision {
    /// Listen on this port, which was just bound.
    Listen(u16),
    /// Try to bind this port next.
    Try(u16),
    /// Give up: no port could be bound.
    GiveUp,
}

/// The decision after trying the port of `attempt` (which must be one of
/// the candidates): the first port that binds is the one listened on.
pub fn after_bind(attempt: usize, bound: bool) -> (r: BindDecision)
    requires
        attempt < BRIDGE_PORT_COUNT,
    ensures
        bound ==> r == BindDecision::Listen((FIRST_BRIDGE_PORT + attempt) as u16),
        !bound && attempt + 1 < BRIDGE_PORT_COUNT ==> r == BindDecision::Try(
            (FIRST_BRIDGE_PORT + attempt + 1) as u16,
        ),
        !bound && attempt + 1 >= BRIDGE_PORT_COUNT ==> r == BindDecision::GiveUp,
{
    if bound {
        BindDecision::Listen(FIRST_BRIDGE_PORT + attempt as u16)
    } else if attempt + 1 < BRIDGE_PORT_COUNT {
        BindDecision::Try(FIRST_BRIDGE_PORT + (attempt + 1) as u16)
    } else {
        BindDecision::GiveUp
    }
}

/// The text of the error when no port could be bound.
pub fn no_port_message() -> (r: String)
    ensures
        r@ == "Could not bind Scrimora Link to any loopback port."@,
{
    String::from_str("Could not bind Scrimora Link to any loopback port.")
}

/// Whether `m` is an error message with the given code and text.
pub open spec fn is_error_reply<P>(m: ServerMessage<P>, code: Seq<char>, text: Seq<char>) -> bool {
    m matches ServerMessage::Error { code: c, message } && c@ == code && message@ == text
}

/// Whether a handshake outcome sends an error with the given code and text,
/// then closes the connection.
pub open spec fn closes_with_error<P>(
    r: Option<(ServerMessage<P>, bool)>,
    code: Seq<char>,
    text: Seq<char>,
) -> bool {
    match r {
        Some((m, open)) => !open && is_error_reply(m, code, text),
        None => false,
    }
}

/// Whether a handshake outcome sends `READY` with the given version and
/// port, and keeps the connection open.
pub open spec fn opens_with_ready<P>(
    r: Option<(ServerMessage<P>, bool)>,
    version: String,
    port: u16,
) -> bool {
    match r {
        Some((ServerMessage::Ready { companion_version, bridge_port }, open)) => open
            && companion_version == version && bridge_port == port,
        _ => false,
    }
}

/// Whether a step is the sending of an error with the given code and text.
pub open spec fn is_error_step<P>(r: BridgeStep<P>, code: Seq<char>, text: Seq<char>) -> bool {
    match r {
        BridgeStep::Reply(m) => is_error_reply(m, code, text),
        _ => false,
    }
}

/// The text of the error sent when the first message is not a `HELLO`.
pub open spec fn handshake_text() -> Seq<char> {
    "The first local bridge message must be HELLO."@
}

/// The text of the error sent for a message that cannot be handled.
pub open spec fn invalid_message_text() -> Seq<char> {
    "The local bridge message could not be parsed."@
}

/// How the bridge answers the first frame of a connection.
///
/// `first` is `None` when the frame is not a text frame (or the socket
/// failed or closed), `Some(None)` when the text is not a client message,
/// and `Some(Some(m))` for a message `m`. The result is `None` when the
/// connection is to be closed silently; otherwise it holds the reply and
/// whether the connection stays open.
pub fn handshake<P>(
    state: &mut AppState,
    first: Option<Option<ClientMessage>>,
    header_origin: Option<&str>,
    companion_version: String,
) -> (r: Option<(ServerMessage<P>, bool)>)
    ensures
        first is None ==> r is None && final(state)@ == old(state)@,
        (first matches Some(m) && !(m matches Some(ClientMessage::Hello { .. }))) ==> (
        final(state)@ == old(state)@ && closes_with_error(r, "invalid_handshake"@, handshake_text())),
        first matches Some(Some(ClientMessage::Hello { nonce, origin })) ==> ({
            let t = final(state)@.clock_floor;
            let (next, res) = verify_step(
                at_reading(old(state)@, t),
                nonce@,
                origin@,
                opt_str_view(header_origin),
                t,
            );
            &&& t >= old(state)@.clock_floor
            &&& final(state)@ == next
            &&& res is Ok ==> opens_with_ready(
                r,
                companion_version,
                match next.bridge_port {
                    Some(p) => p,
                    None => 0u16,
                },
            )
            &&& res matches Err(e) ==> closes_with_error(r, "unauthorized_origin"@, e.text())
        }),
{
    let message = match first {
        None => {
            return None;
        },
        Some(m) => m,
    };
    match message {
        Some(ClientMessage::Hello { nonce, origin }) => {
            match state.verify_session(nonce.as_str(), origin.as_str(), header_origin) {
                Ok(()) => {
                    let bridge_port = match state.bridge_port() {
                        Some(p) => p,
                        None => 0,
                    };
                    Some((ServerMessage::Ready { companion_version, bridge_port }, true))
                },
                Err(error) => {
                    let message = error.message();
                    Some((ServerMessage::Error { code: "unauthorized_origin", message }, false))
                },
            }
        },
        _ => {
            let message = String::from_str("The first local bridge message must be HELLO.");
            Some((ServerMessage::Error { code: "invalid_handshake", message }, false))
        },
    }
}

/// What a message after the handshake asks the bridge to do.
pub enum BridgeStep<P> {
    /// Send this reply.
    Reply(ServerMessage<P>),
    /// Fetch the recent custom games from the client, then answer with
    /// `recent_games_reply`.
    FetchRecentGames,
    /// Fetch this game from the client, then answer with `import_reply`.
    ImportGame(i64),
}

/// What a text message after the handshake asks for; `message` is `None`
/// when the text is not a client message.
pub fn on_message<P>(message: Option<ClientMessage>) -> (r: BridgeStep<P>)
    ensures
        message matches Some(ClientMessage::GetRecentCustomGames) ==> r is FetchRecentGames,
        message matches Some(ClientMessage::ImportGame { game_id }) ==> r matches BridgeStep::ImportGame(
            id,
        ) && id == game_id,
        message matches Some(ClientMessage::Ping) ==> r matches BridgeStep::Reply(ServerMessage::Pong),
        (message is None || message matches Some(ClientMessage::Hello { .. })) ==> is_error_step(
            r,
            "invalid_message"@,
            invalid_message_text(),
        ),
        step_view(r) == step_of(opt_message_view(message)),
{
    match message {
        Some(ClientMessage::GetRecentCustomGames) => BridgeStep::FetchRecentGames,
        Some(ClientMessage::ImportGame { game_id }) => BridgeStep::ImportGame(game_id),
        Some(ClientMessage::Ping) => BridgeStep::Reply(ServerMessage::Pong),
        _ => {
            let message = String::from_str("The local bridge message could not be parsed.");
            BridgeStep::Reply(ServerMessage::Error { code: "invalid_message", message })
        },
    }
}

/// The reply to a request for the recent custom games: the games, or the
/// error's text under `lcu_recent_games_failed`.
pub fn recent_games_reply<P>(result: Result<Vec<RecentGameSummary>, String>) -> (r: ServerMessage<P>)
    ensures
        result matches Ok(games) ==> r matches ServerMessage::RecentCustomGames { games: g } && g
            == games,
        result matches Err(e) ==> is_error_reply(r, "lcu_recent_games_failed"@, e@),
        reply_view(r) == fetch_answer(
            match result {
                Ok(_) => Ok(()),
                Err(e) => Err(e@),
            },
        ),
{
    match result {
        Ok(games) => ServerMessage::RecentCustomGames { games },
        Err(message) => ServerMessage::Error { code: "lcu_recent_games_failed", message },
    }
}

/// The reply to an import request: the payloads, or the error's text under
/// `lcu_import_failed`.
pub fn import_reply<P>(result: Result<P, String>) -> (r: ServerMessage<P>)
    ensures
        result matches Ok(p) ==> r matches ServerMessage::ImportPayload(q) && q == p,
        result matches Err(e) ==> is_error_reply(r, "lcu_import_failed"@, e@),
        reply_view(r) == import_answer(
            match result {
                Ok(_) => Ok(()),
                Err(e) => Err(e@),
            },
        ),
{
    match result {
        Ok(payload) => ServerMessage::ImportPayload(payload),
        Err(message) => ServerMessage::Error { code: "lcu_import_failed", message },
    }
}

// ---------------------------------------------------------------------------
// The frames after the handshake
// ---------------------------------------------------------------------------

/// A frame received after the handshake: a text frame, with the client
/// message it holds (`None` when it holds none), or any other frame.
pub enum Frame {
    Text(Option<ClientMessage>),
    Other,
}

/// What a client message asks, without its texts.
pub enum MessageView {
    Hello,
    GetRecentCustomGames,
    ImportGame(i64),
    Ping,
}

/// What a received frame holds.
pub enum FrameView {
    Text(Option<MessageView>),
    Other,
}

/// What a reply says: its kind, and the code and text of an error.
pub enum ReplyView {
    Ready,
    RecentCustomGames,
    ImportPayload,
    Error(Seq<char>, Seq<char>),
    Pong,
}

/// What a step asks of the bridge.
pub enum StepView {
    Reply(ReplyView),
    Fetch,
    Import(i64),
}

pub open spec fn message_view(m: ClientMessage) -> MessageView {
    match m {
        ClientMessage::Hello { .. } => MessageView::Hello,
        ClientMessage::GetRecentCustomGames => MessageView::GetRecentCustomGames,
        ClientMessage::ImportGame { game_id } => MessageView::ImportGame(game_id),
        ClientMessage::Ping => MessageView::Ping,
    }
}

pub open spec fn opt_message_view(m: Option<ClientMessage>) -> Option<MessageView> {
    match m {
        Some(m) => Some(message_view(m)),
        None => None,
    }
}

pub open spec fn frame_view(f: Frame) -> FrameView {
    match f {
        Frame::Text(m) => FrameView::Text(opt_message_view(m)),
        Frame::Other => FrameView::Other,
    }
}

pub open spec fn reply_view<P>(m: ServerMessage<P>) -> ReplyView {
    match m {
        ServerMessage::Ready { .. } => ReplyView::Ready,
        ServerMessage::RecentCustomGames { .. } => ReplyView::RecentCustomGames,
        ServerMessage::ImportPayload(_) => ReplyView::ImportPayload,
        ServerMessage::Error { code, message } => ReplyView::Error(code@, message@),
        ServerMessage::Pong => ReplyView::Pong,
    }
}

pub open spec fn step_view<P>(s: BridgeStep<P>) -> StepView {
    match s {
        BridgeStep::Reply(m) => StepView::Reply(reply_view(m)),
        BridgeStep::FetchRecentGames => StepView::Fetch,
        BridgeStep::ImportGame(id) => StepView::Import(id),
    }
}

/// What a text message after the handshake asks for: `PING` a `PONG`,
/// `GET_RECENT_CUSTOM_GAMES` a fetch, `IMPORT_GAME` an import, and a
/// `HELLO` or a text that is no message an `invalid_message` error.
pub open spec fn step_of(m: Option<MessageView>) -> StepView {
    match m {
        Some(MessageView::Ping) => StepView::Reply(ReplyView::Pong),
        Some(MessageView::GetRecentCustomGames) => StepView::Fetch,
        Some(MessageView::ImportGame(id)) => StepView::Import(id),
        _ => StepView::Reply(ReplyView::Error("invalid_message"@, invalid_message_text())),
    }
}

/// The reply to a fetch of the recent custom games, given its outcome.
pub open spec fn fetch_answer(outcome: Result<(), Seq<char>>) -> ReplyView {
    match outcome {
        Ok(()) => ReplyView::RecentCustomGames,
        Err(e) => ReplyView::Error("lcu_recent_games_failed"@, e),
    }
}

/// The reply to an import, given its outcome.
pub open spec fn import_answer(outcome: Result<(), Seq<char>>) -> ReplyView {
    match outcome {
        Ok(()) => ReplyView::ImportPayload,
        Err(e) => ReplyView::Error("lcu_import_failed"@, e),
    }
}

/// The reply to a step, given the outcome of the client request it makes
/// (`Ok` or the error's text; ignored for a step that makes none).
pub open spec fn answer(step: StepView, outcome: Result<(), Seq<char>>) -> ReplyView {
    match step {
        StepView::Reply(r) => r,
        StepView::Fetch => fetch_answer(outcome),
        StepView::Import(_) => import_answer(outcome),
    }
}

/// The replies the bridge sends for a run of frames after the handshake,
/// given the outcome of the client request that each frame may make: one
/// reply for each text frame, in order, and none for other frames.
pub open spec fn session_replies(
    frames: Seq<FrameView>,
    outcomes: Seq<Result<(), Seq<char>>>,
) -> Seq<ReplyView>
    decreases frames.len(),
{
    if frames.len() == 0 {
        Seq::empty()
    } else {
        let rest = session_replies(frames.drop_last(), outcomes);
        match frames.last() {
            FrameView::Text(m) => rest.push(answer(step_of(m), outcomes[frames.len() - 1])),
            FrameView::Other => rest,
        }
    }
}

/// The number of text frames among `frames`.
pub open spec fn text_frame_count(frames: Seq<FrameView>) -> nat
    decreases frames.len(),
{
    if frames.len() == 0 {
        0
    } else {
        text_frame_count(frames.drop_last()) + if frames.last() is Text {
            1nat
        } else {
            0nat
        }
    }
}

/// What a frame after the handshake asks for: nothing for a frame that is
/// not text, else what its message asks for.
pub fn on_frame<P>(frame: Frame) -> (r: Option<BridgeStep<P>>)
    ensures
        match frame_view(frame) {
            FrameView::Other => r is None,
            FrameView::Text(m) => r matches Some(s) && step_view(s) == step_of(m),
        },
{
    match frame {
        Frame::Text(message) => Some(on_message(message)),
        Frame::Other => None,
    }
}

/// After the handshake, each text frame gets exactly one reply, in order,
/// and other frames get none: the reply to the `k`-th text frame (at index
/// `j`) is the answer to what its message asks, given the outcome of its
/// client request. So `PING` gets `PONG`; `GET_RECENT_CUSTOM_GAMES` the games
/// or an `lcu_recent_games_failed` error; `IMPORT_GAME` the payloads or an
/// `lcu_import_failed` error; `HELLO` or a text that is no message an
/// `invalid_message` error.
pub proof fn law_each_text_frame_gets_one_reply(
    frames: Seq<FrameView>,
    outcomes: Seq<Result<(), Seq<char>>>,
    j: int,
)
    requires
        0 <= j < frames.len(),
    ensures
        session_replies(frames, outcomes).len() == text_frame_count(frames),
        frames[j] matches FrameView::Text(m) ==> session_replies(frames, outcomes)[text_frame_count(
            frames.take(j),
        ) as int] == answer(step_of(m), outcomes[j]),
    decreases frames.len(),
{
    lemma_session_replies_len(frames, outcomes);
    let n = frames.len();
    let prev = frames.drop_last();
    if j < n - 1 {
        law_each_text_frame_gets_one_reply(prev, outcomes, j);
        assert(prev.take(j) =~= frames.take(j));
        assert(prev[j] == frames[j]);
        lemma_session_replies_len(prev, outcomes);
        if frames[j] is Text {
            lemma_text_count_prefix(prev, j);
        }
    } else {
        assert(frames.take(j) =~= prev);
        lemma_session_replies_len(prev, outcomes);
    }
}

proof fn lemma_session_replies_len(frames: Seq<FrameView>, outcomes: Seq<Result<(), Seq<char>>>)
    ensures
        session_replies(frames, outcomes).len() == text_frame_count(frames),
    decreases frames.len(),
{
    if frames.len() > 0 {
        lemma_session_replies_len(frames.drop_last(), outcomes);
    }
}

proof fn lemma_text_count_prefix(frames: Seq<FrameView>, j: int)
    requires
        0 <= j < frames.len(),
        frames[j] is Text,
    ensures
        text_frame_count(frames.take(j)) < text_frame_count(frames),
    decreases frames.len(),
{
    if j < frames.len() - 1 {
        lemma_text_count_prefix(frames.drop_last(), j);
        assert(frames.drop_last().take(j) =~= frames.take(j));
    } else {
        assert(frames.take(j) =~= frames.drop_last());
    }
}

} // verus!
