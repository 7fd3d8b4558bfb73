use fpsoccer::dual_connection::{Channel, DualConnection, DualConnectionManager, MessageType};
use fpsoccer::events::GameEvent;
use fpsoccer::lobby::{GameInfo, LobbyMessage};
use fpsoccer::player::Team;
use fpsoccer::text::{bytes_eq, contains, matches_at};
use fpsoccer::webrtc_signaling::is_webrtc_message;
use fpsoccer::websocket::{is_plain_ping, is_reliable_shoot, is_reset_request};
use fpsoccer::webtransport_relay::WebTransportRelay;

const ALL_TYPES: [MessageType; 16] = [
    MessageType::Input,
    MessageType::PositionUpdate,
    MessageType::BallPosition,
    MessageType::ProjectileUpdate,
    MessageType::Goal,
    MessageType::TeamSwitch,
    MessageType::GameReset,
    MessageType::PlayerJoin,
    MessageType::PlayerLeave,
    MessageType::GameState,
    MessageType::AutoShoot,
    MessageType::ProjectileFired,
    MessageType::BallShot,
    MessageType::BallKnocked,
    MessageType::Explosion,
    MessageType::Countdown,
];

#[test]
fn four_message_classes_are_latency_sensitive() {
    let fast: Vec<MessageType> =
        ALL_TYPES.iter().copied().filter(|t| t.latency_sensitive()).collect();
    assert_eq!(
        fast,
        vec![
            MessageType::Input,
            MessageType::PositionUpdate,
            MessageType::BallPosition,
            MessageType::ProjectileUpdate
        ]
    );
}

#[test]
fn reliable_messages_use_the_reliable_channel_only() {
    let mut c = DualConnection::new(3);
    c.add_fast_channel();
    c.add_webtransport_channel();
    for t in ALL_TYPES.iter().filter(|t| !t.latency_sensitive()) {
        assert_eq!(c.send_message(t), vec![Channel::Reliable]);
    }
}

#[test]
fn latency_sensitive_messages_fall_back_in_order() {
    let mut c = DualConnection::new(3);
    assert_eq!(c.client_id, 3);
    assert!(!c.has_fast_channel() && !c.has_webtransport_channel());
    assert_eq!(c.get_connection_type(), "WebSocket Only");
    assert_eq!(c.send_message(&MessageType::Input), vec![Channel::Reliable]);
    c.add_fast_channel();
    assert!(c.has_fast_channel());
    assert_eq!(c.get_connection_type(), "Dual WebSocket");
    assert_eq!(c.send_message(&MessageType::BallPosition), vec![Channel::Fast, Channel::Reliable]);
    c.add_webtransport_channel();
    assert!(c.has_webtransport_channel());
    assert_eq!(c.get_connection_type(), "WebTransport + WebSocket");
    assert_eq!(
        c.send_message(&MessageType::PositionUpdate),
        vec![Channel::WebTransport, Channel::Fast, Channel::Reliable]
    );
    let mut only_stream = DualConnection::new(4);
    only_stream.add_webtransport_channel();
    assert_eq!(
        only_stream.send_message(&MessageType::ProjectileUpdate),
        vec![Channel::WebTransport, Channel::Reliable]
    );
}

#[test]
fn manager_tracks_clients_and_their_channels() {
    let mut m = DualConnectionManager::new();
    assert_eq!(m.get_stats(), (0, 0));
    m.add_reliable_connection(1);
    m.add_reliable_connection(2);
    m.add_reliable_connection(3);
    assert!(m.add_fast_connection(2));
    assert!(!m.add_fast_connection(9));
    assert!(m.add_webtransport_connection(3));
    assert!(!m.add_webtransport_connection(9));
    assert_eq!(m.get_stats(), (3, 1));
    assert_eq!(m.send_to_client(2, &MessageType::Input), vec![Channel::Fast, Channel::Reliable]);
    assert_eq!(
        m.send_to_client(3, &MessageType::Input),
        vec![Channel::WebTransport, Channel::Reliable]
    );
    assert_eq!(m.send_to_client(1, &MessageType::Input), vec![Channel::Reliable]);
    assert_eq!(m.send_to_client(2, &MessageType::Goal), vec![Channel::Reliable]);
    assert_eq!(m.send_to_client(9, &MessageType::Goal), Vec::<Channel>::new());
    assert_eq!(m.broadcast_message(None), vec![1, 2, 3]);
    assert_eq!(m.broadcast_message(Some(2)), vec![1, 3]);
    assert_eq!(m.broadcast_message(Some(9)), vec![1, 2, 3]);
    // a client that connects again starts over
    m.add_reliable_connection(2);
    assert_eq!(m.get_stats(), (3, 0));
    assert_eq!(m.send_to_client(2, &MessageType::Input), vec![Channel::Reliable]);
    m.remove_client(1);
    m.remove_client(9);
    assert_eq!(m.get_stats(), (2, 0));
    assert_eq!(m.broadcast_message(None), vec![2, 3]);
}

#[test]
fn events_are_reliable() {
    let events = [
        GameEvent::Goal {
            scored_on_team: Team::Red,
            scorer: None,
            team1_score: 1,
            team2_score: 0,
            team3_score: 0,
            team4_score: 0,
        },
        GameEvent::GameReset { team1_score: 0, team2_score: 0, team3_score: 0, team4_score: 0 },
        GameEvent::Countdown { count: 3 },
        GameEvent::AutoShoot { player_id: 1 },
        GameEvent::BallShot { player_id: 1 },
        GameEvent::BallKnocked { player_id: 1 },
        GameEvent::Explosion { x: 1, y: 2, radius: 3, player_id: 1 },
        GameEvent::ProjectileFired { player_id: 1 },
        GameEvent::PlayerJoin { player_id: 1, team: Team::Blue, is_host: false },
        GameEvent::PlayerLeave { player_id: 1 },
    ];
    let classes: Vec<MessageType> = events.iter().map(|e| e.message_type()).collect();
    assert_eq!(
        classes,
        vec![
            MessageType::Goal,
            MessageType::GameReset,
            MessageType::Countdown,
            MessageType::AutoShoot,
            MessageType::BallShot,
            MessageType::BallKnocked,
            MessageType::Explosion,
            MessageType::ProjectileFired,
            MessageType::PlayerJoin,
            MessageType::PlayerLeave
        ]
    );
    assert!(classes.iter().all(|c| !c.latency_sensitive()));
}

#[test]
fn signalling_messages_are_recognised_by_their_type() {
    assert!(is_webrtc_message("{\"type\":\"request_webrtc_peers\"}"));
    assert!(is_webrtc_message("{\"type\":\"webrtc_signaling\",\"toPeer\":2}"));
    assert!(is_webrtc_message("{\"type\": \"request_webrtc_peers\"}"));
    assert!(is_webrtc_message("{\"fromPeer\":1, \"type\": \"webrtc_signaling\"}"));
    assert!(!is_webrtc_message("{\"type\":\"input\"}"));
    assert!(!is_webrtc_message("{\"type\":  \"webrtc_signaling\"}"));
    assert!(!is_webrtc_message("webrtc_signaling"));
    assert!(!is_webrtc_message(""));
}

#[test]
fn control_messages_are_recognised() {
    assert!(is_plain_ping("ping"));
    assert!(!is_plain_ping("ping "));
    assert!(!is_plain_ping("pong"));
    assert!(is_reset_request("{\"type\":\"reset_game\"}"));
    assert!(is_reset_request("{\"type\": \"reset_game\"}"));
    assert!(!is_reset_request("{\"type\":\"reset\"}"));
    assert!(is_reliable_shoot("{\"type\":\"reliable_shoot\",\"shot_id\":4}"));
    assert!(!is_reliable_shoot("{\"type\": \"reliable_shoot\"}"));
}

#[test]
fn byte_search() {
    assert!(contains(b"hello world", b"o w"));
    assert!(contains(b"hello", b""));
    assert!(contains(b"", b""));
    assert!(contains(b"hello", b"hello"));
    assert!(contains(b"hello", b"lo"));
    assert!(!contains(b"hello", b"hello!"));
    assert!(!contains(b"hello", b"ol"));
    assert!(matches_at(b"hello", b"ll", 2));
    assert!(!matches_at(b"hello", b"ll", 3));
    assert!(!matches_at(b"hello", b"lo", 4));
    assert!(matches_at(b"hello", b"", 5));
    assert!(!matches_at(b"hello", b"", 6));
    assert!(bytes_eq(b"abc", b"abc"));
    assert!(!bytes_eq(b"abc", b"abd"));
    assert!(!bytes_eq(b"abc", b"ab"));
}

#[test]
fn relay_keeps_its_port() {
    assert_eq!(WebTransportRelay::new(4433).port(), 4433);
}

#[test]
fn lobby_messages_carry_their_fields() {
    let info = GameInfo {
        id: "game_1".to_string(),
        name: "Friday".to_string(),
        player_count: 2,
        max_players: 4,
        is_public: true,
    };
    let copy = info.clone();
    assert_eq!(copy.id, "game_1");
    assert_eq!(copy.max_players, 4);
    let list = LobbyMessage::GameList { games: vec![info] };
    match list {
        LobbyMessage::GameList { games } => assert_eq!(games[0].name, "Friday"),
        _ => unreachable!(),
    }
}
