use scrimora_link::app_state::LcuConnectionStatus;
use scrimora_link::lcu::{
    authorization_header, connection_status, current_summoner_path, extract_recent_custom_games,
    game_path, game_timeline_path, is_custom_game, lcu_url, match_history_path,
    recent_games_request, riot_id_label, select_recent_games, source_context, summarize_game,
    summarize_game_at, GamePayloadRecord, GameRecord, LcuError, MatchHistory, ParticipantRecord,
    SummonerRecord,
};
use scrimora_link::lockfile::LockfileCredentials;
use scrimora_link::messages::RecentGameSummary;

fn participant(name: &str) -> ParticipantRecord {
    ParticipantRecord { riot_id_game_name: Some(name.to_string()), summoner_name: None }
}

fn game(id: i64, queue_id: Option<i64>, creation: i64, game_type: &str, names: &[&str]) -> GameRecord {
    GameRecord {
        game_id: Some(id),
        queue_id,
        game_type: Some(game_type.to_string()),
        game_creation: Some(creation),
        game_creation_date: None,
        game_duration: Some(1800),
        game_length: None,
        game_version: None,
        participants: Some(names.iter().map(|n| participant(n)).collect()),
    }
}

fn empty_game() -> GameRecord {
    GameRecord {
        game_id: None,
        queue_id: None,
        game_type: None,
        game_creation: None,
        game_creation_date: None,
        game_duration: None,
        game_length: None,
        game_version: None,
        participants: None,
    }
}

#[test]
fn filters_recent_custom_games_from_match_history() {
    let history = MatchHistory {
        nested_games: Some(vec![
            game(101, None, 1_710_000_000_000_i64, "CUSTOM_GAME", &["TopMain"]),
            game(202, None, 1_710_000_000_000_i64, "MATCHED_GAME", &[]),
        ]),
        top_level_games: None,
    };

    let summaries = extract_recent_custom_games(&history, Some("Coach#EUW".to_string()));

    assert_eq!(summaries.len(), 1);
    assert_eq!(summaries[0].game_id, 101);
    assert_eq!(summaries[0].observer_label.as_deref(), Some("Coach#EUW"));
}

#[test]
fn sorts_and_deduplicates_recent_custom_games() {
    let history = MatchHistory {
        nested_games: Some(vec![
            game(101, Some(0), 1_710_000_000_000_i64, "CUSTOM_GAME", &["TopMain"]),
            game(202, Some(0), 1_720_000_000_000_i64, "CUSTOM_GAME", &["MidMain"]),
            game(202, Some(0), 1_720_000_000_000_i64, "CUSTOM_GAME", &["MidMain"]),
        ]),
        top_level_games: None,
    };

    let summaries = extract_recent_custom_games(&history, None);

    assert_eq!(summaries.len(), 2);
    assert_eq!(summaries[0].game_id, 202);
    assert_eq!(summaries[1].game_id, 101);
}

#[test]
fn summarizes_a_game_with_its_rfc3339_time() {
    let g = game(101, None, 1_710_000_000_000_i64, "CUSTOM_GAME", &["TopMain", "Jungle"]);
    let s = summarize_game(&g, Some("Coach".to_string())).unwrap();
    assert_eq!(s.game_id, 101);
    assert_eq!(s.played_at, "2024-03-09T16:00:00+00:00");
    assert_eq!(s.duration_minutes, 30);
    assert_eq!(s.queue_label.as_deref(), Some("CUSTOM_GAME"));
    assert_eq!(s.game_version, None);
    assert_eq!(s.participant_names, vec!["TopMain".to_string(), "Jungle".to_string()]);
    // Milliseconds are written when there are some.
    let mut g2 = game(7, None, 1_710_000_000_123_i64, "CUSTOM_GAME", &[]);
    g2.game_version = Some("14.5.1".to_string());
    let s2 = summarize_game(&g2, None).unwrap();
    assert_eq!(s2.played_at, "2024-03-09T16:00:00.123+00:00");
    assert_eq!(s2.game_version.as_deref(), Some("14.5.1"));
}

#[test]
fn summary_falls_back_on_creation_date_and_length() {
    let mut g = empty_game();
    g.game_id = Some(5);
    g.game_creation_date = Some(0);
    g.game_length = Some(3_600_000);
    g.participants = Some(vec![
        ParticipantRecord { riot_id_game_name: None, summoner_name: Some("Old".to_string()) },
        ParticipantRecord { riot_id_game_name: None, summoner_name: None },
    ]);
    let s = summarize_game(&g, None).unwrap();
    assert_eq!(s.played_at, "1970-01-01T00:00:00+00:00");
    assert_eq!(s.duration_minutes, 60);
    assert_eq!(s.participant_names, vec!["Old".to_string()]);
    // No creation time at all reads as the epoch.
    g.game_creation_date = None;
    g.game_length = Some(-125);
    let s = summarize_game(&g, None).unwrap();
    assert_eq!(s.played_at, "1970-01-01T00:00:00+00:00");
    assert_eq!(s.duration_minutes, -2);
}

#[test]
fn summary_needs_an_id_and_a_representable_time() {
    let mut g = empty_game();
    assert!(summarize_game(&g, None).is_none());
    g.game_id = Some(1);
    g.game_creation = Some(i64::MAX);
    assert!(summarize_game(&g, None).is_none());
    assert!(summarize_game_at(&g, None, None).is_none());
    let s = summarize_game_at(&g, None, Some("then".to_string())).unwrap();
    assert_eq!(s.played_at, "then");
    assert_eq!(s.duration_minutes, 0);
    assert!(s.participant_names.is_empty());
}

#[test]
fn recognizes_custom_games() {
    let mut g = empty_game();
    assert!(!is_custom_game(&g));
    g.queue_id = Some(0);
    assert!(is_custom_game(&g));
    g.queue_id = Some(420);
    g.game_type = Some("practice_game".to_string());
    assert!(is_custom_game(&g));
    g.game_type = Some("Private_Game".to_string());
    assert!(is_custom_game(&g));
    g.game_type = Some("MATCHED_GAME".to_string());
    assert!(!is_custom_game(&g));
}

fn summary(id: i64, played_at: &str) -> RecentGameSummary {
    RecentGameSummary {
        game_id: id,
        played_at: played_at.to_string(),
        duration_minutes: 0,
        game_version: None,
        queue_label: None,
        observer_label: None,
        participant_names: vec![],
    }
}

#[test]
fn keeps_the_twenty_latest_games() {
    let mut all = Vec::new();
    for i in 0..30 {
        all.push(summary(i, &format!("2024-01-{:02}T00:00:00+00:00", (i % 28) + 1)));
    }
    let selected = select_recent_games(all);
    assert_eq!(selected.len(), 20);
    assert_eq!(selected[0].game_id, 27);
    assert_eq!(selected[1].game_id, 26);
    // Same time: the greater id first.
    let same = select_recent_games(vec![summary(1, "t"), summary(3, "t"), summary(2, "t"), summary(3, "u")]);
    let ids: Vec<i64> = same.iter().map(|s| s.game_id).collect();
    assert_eq!(ids, vec![3, 2, 1]);
    assert_eq!(same[0].played_at, "t");
}

#[test]
fn falls_back_on_the_top_level_games() {
    let history = MatchHistory {
        nested_games: None,
        top_level_games: Some(vec![game(9, Some(0), 0, "", &[])]),
    };
    let summaries = extract_recent_custom_games(&history, None);
    assert_eq!(summaries.len(), 1);
    let none = MatchHistory { nested_games: None, top_level_games: None };
    assert!(extract_recent_custom_games(&none, None).is_empty());
}

#[test]
fn labels_the_observer_with_the_riot_id() {
    let mut s = SummonerRecord {
        puuid: Some("p-1".to_string()),
        game_name: Some("Coach".to_string()),
        display_name: Some("Display".to_string()),
        tag_line: Some("EUW".to_string()),
    };
    assert_eq!(riot_id_label(&s).as_deref(), Some("Coach#EUW"));
    s.tag_line = Some(String::new());
    assert_eq!(riot_id_label(&s).as_deref(), Some("Coach"));
    s.game_name = None;
    s.tag_line = None;
    assert_eq!(riot_id_label(&s).as_deref(), Some("Display"));
    s.display_name = None;
    assert_eq!(riot_id_label(&s), None);
}

#[test]
fn builds_the_requests_to_the_client() {
    assert_eq!(current_summoner_path(), "/lol-summoner/v1/current-summoner");
    assert_eq!(match_history_path("abc"), "/lol-match-history/v1/products/lol/abc/matches");
    assert_eq!(game_path(42), "/lol-match-history/v1/games/42");
    assert_eq!(game_path(-7), "/lol-match-history/v1/games/-7");
    assert_eq!(game_path(i64::MIN), format!("/lol-match-history/v1/games/{}", i64::MIN));
    assert_eq!(game_timeline_path(1234567890123), "/lol-match-history/v1/game-timelines/1234567890123");
    let creds = LockfileCredentials { port: 51923, password: "s3cr3t".to_string(), protocol: "https".to_string() };
    assert_eq!(lcu_url(&creds, "/x"), "https://127.0.0.1:51923/x");
    assert_eq!(authorization_header("s3cr3t"), "Basic cmlvdDpzM2NyM3Q=");
    assert_eq!(authorization_header(""), "Basic cmlvdDo=");
    assert_eq!(authorization_header("ab"), "Basic cmlvdDphYg==");
    assert_eq!(authorization_header("é"), "Basic cmlvdDrDqQ==");
}

#[test]
fn asks_for_the_match_history_of_the_summoner() {
    let s = SummonerRecord {
        puuid: Some("p-1".to_string()),
        game_name: Some("Coach".to_string()),
        display_name: None,
        tag_line: Some("EUW".to_string()),
    };
    let (path, label) = recent_games_request(&s).unwrap();
    assert_eq!(path, "/lol-match-history/v1/products/lol/p-1/matches");
    assert_eq!(label.as_deref(), Some("Coach#EUW"));
    let none = SummonerRecord { puuid: None, game_name: None, display_name: None, tag_line: None };
    let err = recent_games_request(&none).unwrap_err();
    assert_eq!(err, LcuError::MissingPuuid);
    assert_eq!(err.message(), "The current League account did not expose a PUUID.");
}

#[test]
fn describes_the_source_of_an_import() {
    let s = SummonerRecord {
        puuid: Some("p-1".to_string()),
        game_name: Some("Coach".to_string()),
        display_name: None,
        tag_line: None,
    };
    let payload = GamePayloadRecord { platform_id: Some("EUW1".to_string()), game_version: Some("14.5".to_string()) };
    let c = source_context(&s, &payload, 99);
    assert_eq!(c.observer_puuid.as_deref(), Some("p-1"));
    assert_eq!(c.observer_riot_id.as_deref(), Some("Coach"));
    assert_eq!(c.platform_id.as_deref(), Some("EUW1"));
    assert_eq!(c.region.as_deref(), Some("EUW1"));
    assert_eq!(c.game_id, 99);
    assert_eq!(c.client_version.as_deref(), Some("14.5"));
    assert_eq!(c.transport, "websocket_loopback");
}

#[test]
fn reports_the_connection_status() {
    assert_eq!(connection_status(false, false), LcuConnectionStatus::Disconnected);
    assert_eq!(connection_status(false, true), LcuConnectionStatus::Disconnected);
    assert_eq!(connection_status(true, true), LcuConnectionStatus::Connected);
    assert_eq!(connection_status(true, false), LcuConnectionStatus::Connecting);
}
