use scrimora_link::app_state::AppState;
use scrimora_link::bridge::{
    after_bind, bridge_port_candidate, bridge_protocol, on_frame, BindDecision, Frame, handshake, import_reply, no_port_message, on_message,
    recent_games_reply, BridgeStep,
};
use scrimora_link::messages::{ClientMessage, ServerMessage};

fn hello(nonce: &str, origin: &str) -> Option<Option<ClientMessage>> {
    Some(Some(ClientMessage::Hello { nonce: nonce.to_string(), origin: origin.to_string() }))
}

fn error_of(m: &ServerMessage<()>) -> (&'static str, String) {
    match m {
        ServerMessage::Error { code, message } => (code, message.clone()),
        other => panic!("not an error: {other:?}"),
    }
}

#[test]
fn tries_the_five_loopback_ports_in_turn() {
    let ports: Vec<Option<u16>> = (0..6).map(bridge_port_candidate).collect();
    assert_eq!(ports, vec![Some(36130), Some(36131), Some(36132), Some(36133), Some(36134), None]);
    assert_eq!(bridge_protocol(), "scrimora-link.v1");
    assert_eq!(no_port_message(), "Could not bind Scrimora Link to any loopback port.");
}

#[test]
fn listens_on_the_first_port_that_binds() {
    assert_eq!(after_bind(0, true), BindDecision::Listen(36130));
    assert_eq!(after_bind(0, false), BindDecision::Try(36131));
    assert_eq!(after_bind(3, true), BindDecision::Listen(36133));
    assert_eq!(after_bind(3, false), BindDecision::Try(36134));
    assert_eq!(after_bind(4, false), BindDecision::GiveUp);
}

#[test]
fn accepts_a_paired_hello() {
    let mut state = AppState::new();
    state.set_bridge_port(36132);
    state.arm_session("n".to_string(), "https://scrimora.app".to_string()).unwrap();
    let (reply, open) =
        handshake::<()>(&mut state, hello("n", "https://scrimora.app"), Some("https://scrimora.app"), "1.2.3".to_string())
            .unwrap();
    assert!(open);
    match reply {
        ServerMessage::Ready { companion_version, bridge_port } => {
            assert_eq!(companion_version, "1.2.3");
            assert_eq!(bridge_port, 36132);
        }
        other => panic!("unexpected {other:?}"),
    }
    // The session is consumed: the same hello is now refused.
    let (reply, open) =
        handshake::<()>(&mut state, hello("n", "https://scrimora.app"), Some("https://scrimora.app"), "1.2.3".to_string())
            .unwrap();
    assert!(!open);
    assert_eq!(
        error_of(&reply),
        ("unauthorized_origin", "No active import session is registered.".to_string())
    );
}

#[test]
fn ready_reports_port_zero_when_unknown() {
    let mut state = AppState::new();
    state.arm_session("n".to_string(), "https://scrimora.app".to_string()).unwrap();
    let (reply, _) =
        handshake::<()>(&mut state, hello("n", "https://scrimora.app"), Some("https://scrimora.app"), "v".to_string())
            .unwrap();
    assert!(matches!(reply, ServerMessage::Ready { bridge_port: 0, .. }));
}

#[test]
fn refuses_a_first_message_other_than_hello() {
    let mut state = AppState::new();
    assert!(handshake::<()>(&mut state, None, None, "v".to_string()).is_none());
    for first in [Some(None), Some(Some(ClientMessage::Ping)), Some(Some(ClientMessage::GetRecentCustomGames))] {
        let (reply, open) = handshake::<()>(&mut state, first, None, "v".to_string()).unwrap();
        assert!(!open);
        assert_eq!(
            error_of(&reply),
            ("invalid_handshake", "The first local bridge message must be HELLO.".to_string())
        );
    }
}

#[test]
fn dispatches_later_messages() {
    assert!(matches!(on_message::<()>(Some(ClientMessage::GetRecentCustomGames)), BridgeStep::FetchRecentGames));
    assert!(matches!(on_message::<()>(Some(ClientMessage::ImportGame { game_id: 77 })), BridgeStep::ImportGame(77)));
    assert!(matches!(on_message::<()>(Some(ClientMessage::Ping)), BridgeStep::Reply(ServerMessage::Pong)));
    for m in [None, Some(ClientMessage::Hello { nonce: "n".to_string(), origin: "o".to_string() })] {
        match on_message::<()>(m) {
            BridgeStep::Reply(reply) => assert_eq!(
                error_of(&reply),
                ("invalid_message", "The local bridge message could not be parsed.".to_string())
            ),
            _ => panic!("expected a reply"),
        }
    }
}

#[test]
fn answers_with_the_results_from_the_client() {
    match recent_games_reply::<()>(Ok(vec![])) {
        ServerMessage::RecentCustomGames { games } => assert!(games.is_empty()),
        other => panic!("unexpected {other:?}"),
    }
    assert_eq!(
        error_of(&recent_games_reply::<()>(Err("down".to_string()))),
        ("lcu_recent_games_failed", "down".to_string())
    );
    assert!(matches!(import_reply::<u8>(Ok(5)), ServerMessage::ImportPayload(5)));
    assert_eq!(
        error_of(&import_reply::<()>(Err("gone".to_string()))),
        ("lcu_import_failed", "gone".to_string())
    );
}

#[test]
fn answers_each_text_frame_once_and_skips_other_frames() {
    let frames = vec![
        Frame::Other,
        Frame::Text(Some(ClientMessage::Ping)),
        Frame::Text(None),
        Frame::Other,
        Frame::Text(Some(ClientMessage::ImportGame { game_id: 3 })),
    ];
    let steps: Vec<Option<BridgeStep<()>>> = frames.into_iter().map(on_frame::<()>).collect();
    assert!(steps[0].is_none());
    assert!(matches!(steps[1], Some(BridgeStep::Reply(ServerMessage::Pong))));
    match &steps[2] {
        Some(BridgeStep::Reply(reply)) => assert_eq!(error_of(reply).0, "invalid_message"),
        _ => panic!("expected an error reply"),
    }
    assert!(steps[3].is_none());
    assert!(matches!(steps[4], Some(BridgeStep::ImportGame(3))));
}
