use sanicball_relay::buffer::Buffer;
use sanicball_relay::data::{Client, Endpoint, MatchConfig, Motd, Player, ServerConfig, Stopwatch};
use sanicball_relay::errors::DecodeError;
use sanicball_relay::game::{ChatMessageType, GameHeader, MessageTypes};
use sanicball_relay::headers::Header;
use sanicball_relay::server::{
    announcement, join_line, match_text, motd_line, Action, Effect, Fault, Note, Recipient, Server,
};
use sanicball_relay::stream::Stream;

const SECOND: u64 = 1_000_000_000;
const A: &str = "6f9619ff-8b86-d011-b42d-00c04fc964ff";
const B: &str = "00112233-4455-6677-8899-aabbccddeeff";

fn peer(n: u16) -> Endpoint {
    Endpoint::V4 { ip: 0x0a00_0000 + n as u32, port: 5000 + n }
}

fn settings() -> MatchConfig {
    MatchConfig {
        stage_id: 2,
        laps: 3,
        ai_count: 0,
        ai_skill: 1,
        auto_start_time: 60,
        auto_start_min_players: 2,
        auto_return_time: 15,
        vote_ratio: 0.5f32.to_bits(),
        stage_rotation_mode: 1,
    }
}

fn server() -> Server {
    Server::new(
        ServerConfig {
            public: false,
            servers: vec![],
            ip: "0.0.0.0".to_string(),
            port: 7878,
            max_players: 8,
            enabled_connections: vec![],
        },
        settings(),
        Motd { text: "Gotta go fast".to_string() },
    )
}

fn client(guid: u8, n: u16, counter: usize) -> Client {
    Client {
        guid: vec![guid; 16],
        name: format!("c{}", n),
        connection: peer(n),
        is_loading: false,
        wants_lobby: false,
        counter,
    }
}

fn open(bytes: &[u8], from: Endpoint) -> Stream {
    let mut region = [0u8; 1500];
    region[..bytes.len()].copy_from_slice(bytes);
    Stream::new(&region, bytes.len(), from).unwrap()
}

fn inbound(buffer: &mut Buffer, header: Header, seq: usize, from: Endpoint) -> Stream {
    buffer.write_header(header);
    buffer.seq(seq);
    open(&buffer.message(), from)
}

fn sent(action: &Action) -> (Endpoint, Vec<u8>) {
    match action {
        Action::Send { to, datagram } => (*to, datagram.clone()),
        Action::Announce { .. } => panic!("expected a datagram"),
    }
}

fn chat(text: &str) -> MessageTypes {
    MessageTypes::ChatMessage {
        from: "Server".to_string(),
        kind: ChatMessageType::System,
        text: text.to_string(),
    }
}

fn joined(guid: &str, name: &str) -> MessageTypes {
    MessageTypes::ClientJoinedMessage { client_guid: guid.to_string(), client_name: name.to_string() }
}

fn match_frame(json: &str, seq: usize, from: Endpoint) -> Stream {
    let mut buffer = Buffer::default();
    buffer.write_game_header(GameHeader::MatchMessage);
    buffer.write_time(1.25f32.to_bits());
    buffer.write_string(json);
    inbound(&mut buffer, Header::UserReliableOrdered { channel: 0 }, seq, from)
}

fn ack_of(stream: &Stream) -> Vec<u8> {
    vec![134, 0, 0, 24, 0, stream.header_byte, (stream.sequence & 0xff) as u8, (stream.sequence >> 8) as u8]
}

#[test]
fn new_server_is_empty() {
    let server = server();
    assert_eq!(server.app_id, "Sanicball");
    assert!(server.clients.is_empty());
    assert!(server.players.is_empty());
    assert_eq!(server.match_settings, settings());
    assert!(!server.clock.lobby.running);
}

#[test]
fn join_then_player_then_leave() {
    let mut server = server();
    let out = server.update_server_state(joined(A, "X"), peer(1), 0);
    assert_eq!(out.result, Ok(Effect::Applied));
    assert_eq!(server.clients.len(), 1);
    let out = server.update_server_state(
        MessageTypes::PlayerJoinedMessage {
            client_guid: A.to_string(),
            ctrl_type: 0,
            initial_character: 3,
        },
        peer(1),
        0,
    );
    assert_eq!(out.result, Ok(Effect::Applied));
    assert!(out.actions.is_empty());
    assert_eq!(
        server.players,
        vec![Player {
            guid: vec![
                0xff, 0x19, 0x96, 0x6f, 0x86, 0x8b, 0x11, 0xd0, 0xb4, 0x2d, 0x00, 0xc0, 0x4f, 0xc9,
                0x64, 0xff
            ],
            ctrl_type: 0,
            char_id: 3,
            ready_to_race: false,
            is_racing: false,
            race_timeout: Stopwatch {},
            has_timed_out: false,
        }]
    );
    let out = server.update_server_state(
        MessageTypes::PlayerLeftMessage { client_guid: A.to_string(), ctrl_type: 0 },
        peer(1),
        0,
    );
    assert_eq!(out.result, Ok(Effect::Applied));
    assert!(server.players.is_empty());
    assert_eq!(server.clients.len(), 1);
    assert_eq!(server.clients[0].name, "X");
    assert_eq!(server.clients[0].connection, peer(1));
    assert_eq!(server.clients[0].counter, 0);
}

#[test]
fn join_announces_in_order() {
    let mut server = server();
    server.clients.push(client(1, 1, 4));
    server.clients.push(client(2, 2, 9));
    let out = server.update_server_state(joined(A, "Al\"ice"), peer(3), 0);
    assert_eq!(
        out.actions,
        vec![
            Action::Announce {
                message: chat("\"Al\\\"ice\", Has Joined The Match"),
                recipients: vec![
                    Recipient { to: peer(1), sequence: 0 },
                    Recipient { to: peer(2), sequence: 0 }
                ],
            },
            Action::Announce {
                message: chat("Welcome"),
                recipients: vec![Recipient { to: peer(3), sequence: 0 }],
            },
            Action::Announce {
                message: chat("Our Message of the day is Gotta go fast"),
                recipients: vec![Recipient { to: peer(3), sequence: 0 }],
            },
        ]
    );
    assert_eq!(server.clients.len(), 3);
    assert_eq!(server.clients[0].counter, 4);
    assert_eq!(server.clients[1].counter, 9);
    assert_eq!(server.clients[2].name, "Al\"ice");
}

#[test]
fn chat_lines() {
    assert_eq!(join_line("\"Bob\"".to_string()), "\"Bob\", Has Joined The Match");
    assert_eq!(motd_line("hi"), "Our Message of the day is hi");
    let mut server = server();
    server.clients.push(client(1, 1, 7));
    assert_eq!(
        server.chat_to("psst", peer(9)),
        Action::Announce {
            message: chat("psst"),
            recipients: vec![Recipient { to: peer(9), sequence: 0 }]
        }
    );
    assert_eq!(
        server.chat_all("hear"),
        Action::Announce {
            message: chat("hear"),
            recipients: vec![Recipient { to: peer(1), sequence: 0 }]
        }
    );
    assert_eq!(server.clients[0].counter, 7);
}

#[test]
fn player_needs_a_client() {
    let mut server = server();
    server.update_server_state(joined(A, "X"), peer(1), 0);
    let out = server.update_server_state(
        MessageTypes::PlayerJoinedMessage {
            client_guid: B.to_string(),
            ctrl_type: 0,
            initial_character: 1,
        },
        peer(2),
        0,
    );
    assert_eq!(out.result, Ok(Effect::UnknownClient));
    assert!(server.players.is_empty());
}

fn with_two_players() -> Server {
    let mut server = server();
    server.update_server_state(joined(A, "X"), peer(1), 0);
    for slot in [0, 1] {
        server.update_server_state(
            MessageTypes::PlayerJoinedMessage {
                client_guid: A.to_string(),
                ctrl_type: slot,
                initial_character: 5,
            },
            peer(1),
            0,
        );
    }
    server
}

#[test]
fn ready_sets_flag_and_starts_lobby_timer_once() {
    let mut server = with_two_players();
    let out = server.update_server_state(
        MessageTypes::ChangedReadyMessage { client_guid: A.to_string(), ctrl_type: 1, ready: true },
        peer(1),
        10,
    );
    assert_eq!(out.result, Ok(Effect::Applied));
    assert!(!server.players[0].ready_to_race);
    assert!(server.players[1].ready_to_race);
    assert!(server.clock.lobby.running);
    assert_eq!(server.clock.lobby.start, 10);
    let out = server.update_server_state(
        MessageTypes::ChangedReadyMessage { client_guid: A.to_string(), ctrl_type: 4, ready: true },
        peer(1),
        99,
    );
    assert_eq!(out.result, Ok(Effect::UnknownPlayer));
    assert_eq!(server.clock.lobby.start, 10);
    server.update_server_state(
        MessageTypes::ChangedReadyMessage { client_guid: A.to_string(), ctrl_type: 1, ready: false },
        peer(1),
        120,
    );
    assert!(!server.players[1].ready_to_race);
    assert_eq!(server.clock.lobby.start, 10);
}

#[test]
fn unknown_player_still_starts_the_lobby_timer() {
    let mut server = server();
    let out = server.update_server_state(
        MessageTypes::ChangedReadyMessage { client_guid: A.to_string(), ctrl_type: 0, ready: true },
        peer(1),
        5,
    );
    assert_eq!(out.result, Ok(Effect::UnknownPlayer));
    assert!(server.clock.lobby.running);
}

#[test]
fn character_racing_and_settings() {
    let mut server = with_two_players();
    let out = server.update_server_state(
        MessageTypes::CharacterChangedMessage {
            client_guid: A.to_string(),
            ctrl_type: 0,
            new_character: 12,
        },
        peer(1),
        0,
    );
    assert_eq!(out.result, Ok(Effect::Applied));
    assert_eq!(server.players[0].char_id, 12);
    assert_eq!(server.players[1].char_id, 5);

    let out = server.update_server_state(MessageTypes::StartRaceMessage {}, peer(7), 0);
    assert_eq!(out.result, Ok(Effect::UnknownSender));
    assert!(!server.players[0].is_racing);
    let out = server.update_server_state(MessageTypes::StartRaceMessage {}, peer(1), 0);
    assert_eq!(out.result, Ok(Effect::Applied));
    assert!(server.players[0].is_racing && server.players[1].is_racing);

    let out = server.update_server_state(
        MessageTypes::DoneRacingMessage {
            client_guid: A.to_string(),
            ctrl_type: 1,
            race_time: 61.5f64.to_bits(),
            disqualified: false,
        },
        peer(1),
        0,
    );
    assert_eq!(out.result, Ok(Effect::Applied));
    assert!(server.players[0].is_racing);
    assert!(!server.players[1].is_racing);

    let mut changed = settings();
    changed.laps = 9;
    let out = server.update_server_state(
        MessageTypes::SettingsChanged { new_match_settings: changed },
        peer(1),
        0,
    );
    assert_eq!(out.result, Ok(Effect::Applied));
    assert_eq!(server.match_settings.laps, 9);
}

#[test]
fn placeholders_change_nothing() {
    let mut server = with_two_players();
    let before = server.clone();
    let messages = vec![
        chat("hello"),
        MessageTypes::CheckPointPassedMessage {
            client_guid: "not a guid".to_string(),
            ctrl_type: 0,
            lap_time: 0,
        },
        MessageTypes::ClientLeftMessage { client_guid: A.to_string() },
        MessageTypes::LoadLobbyMessage {},
        MessageTypes::LoadRaceMessage {},
        MessageTypes::RaceFinishedMessage {
            client_guid: A.to_string(),
            ctrl_type: 0,
            race_time: 0,
            race_position: 1,
        },
        MessageTypes::RaceTimeoutMessage { client_guid: A.to_string(), ctrl_type: 0, time: 0 },
    ];
    for message in messages {
        let out = server.update_server_state(message, peer(1), 3);
        assert_eq!(out.result, Ok(Effect::Accepted));
        assert!(out.actions.is_empty());
        assert_eq!(server, before);
    }
}

#[test]
fn refusals_change_nothing() {
    let mut server = with_two_players();
    let before = server.clone();
    let out =
        server.update_server_state(MessageTypes::AutoStartTimerMessage { enabled: true }, peer(1), 0);
    assert_eq!(out.result, Err(Fault::Unsupported));
    let bad = "6f9619ff-8b86-d011-b42d-00c04fc964fz".to_string();
    let messages = vec![
        MessageTypes::ChangedReadyMessage { client_guid: bad.clone(), ctrl_type: 0, ready: true },
        MessageTypes::CharacterChangedMessage {
            client_guid: bad.clone(),
            ctrl_type: 0,
            new_character: 1,
        },
        joined(&bad, "X"),
        MessageTypes::DoneRacingMessage {
            client_guid: bad.clone(),
            ctrl_type: 0,
            race_time: 0,
            disqualified: true,
        },
        MessageTypes::PlayerJoinedMessage {
            client_guid: bad.clone(),
            ctrl_type: 0,
            initial_character: 1,
        },
        MessageTypes::PlayerLeftMessage { client_guid: bad.clone(), ctrl_type: 0 },
    ];
    for message in messages {
        let out = server.update_server_state(message, peer(1), 50);
        assert_eq!(out.result, Err(Fault::Decode(DecodeError::BadGuid)));
        assert!(out.actions.is_empty());
        assert_eq!(server, before);
    }
}

#[test]
fn lookups_find_the_first_match() {
    let mut server = server();
    server.clients.push(client(1, 1, 0));
    server.clients.push(client(2, 2, 0));
    server.clients.push(client(2, 1, 0));
    assert_eq!(server.sending_client(peer(1)), Some(0));
    assert_eq!(server.sending_client(peer(2)), Some(1));
    assert_eq!(server.sending_client(peer(3)), None);
    assert_eq!(server.current_client(&vec![2; 16]), Some(1));
    assert_eq!(server.current_client(&vec![2; 15]), None);
    server.players.push(Player {
        guid: vec![2; 16],
        ctrl_type: 1,
        char_id: 0,
        ready_to_race: false,
        is_racing: false,
        race_timeout: Stopwatch {},
        has_timed_out: false,
    });
    assert_eq!(server.current_player(&vec![2; 16], &1), Some(0));
    assert_eq!(server.current_player(&vec![2; 16], &0), None);
    assert_eq!(server.current_player(&vec![1; 16], &1), None);
}

#[test]
fn broadcast_stamps_each_client_and_moves_each_counter() {
    let mut server = server();
    server.clients.push(client(1, 1, 0));
    server.clients.push(client(2, 2, 1));
    server.clients.push(client(3, 3, 5));
    let mut buffer = Buffer::default();
    buffer.write_string("one logical message");
    let actions = server.send_all(&mut buffer, Header::UserReliableOrdered { channel: 0 });
    assert_eq!(actions.len(), 3);
    let datagrams: Vec<(Endpoint, Vec<u8>)> = actions.iter().map(sent).collect();
    for (i, (to, datagram)) in datagrams.iter().enumerate() {
        assert_eq!(*to, peer(i as u16 + 1));
        assert_eq!(datagram[0], 67);
        assert_eq!(datagram.len(), datagrams[0].1.len());
        assert_eq!(&datagram[3..], &datagrams[0].1[3..]);
        assert_eq!(&datagram[5..], &buffer.message()[5..]);
    }
    let sequences: Vec<u16> =
        datagrams.iter().map(|(to, d)| open(d, *to).sequence).collect();
    assert_eq!(sequences, vec![0, 1, 5]);
    let counters: Vec<usize> = server.clients.iter().map(|c| c.counter).collect();
    assert_eq!(counters, vec![1, 2, 6]);
}

#[test]
fn counter_starts_again_behind_the_largest_value() {
    let mut server = server();
    server.clients.push(client(1, 1, usize::MAX));
    let mut buffer = Buffer::default();
    let actions = server.send_all(&mut buffer, Header::UserUnreliable);
    assert_eq!(open(&sent(&actions[0]).1, peer(1)).sequence, 32767);
    assert_eq!(server.clients[0].counter, 0);
}

#[test]
fn send_to_frames_for_one_peer() {
    let server = server();
    let mut buffer = Buffer::default();
    buffer.write_byte(7);
    let action = server.send_to(&mut buffer, Header::Pong, peer(4));
    assert_eq!(action, Action::Send { to: peer(4), datagram: vec![130, 0, 0, 8, 0, 7] });
}

#[test]
fn lobby_then_stage_load_timers() {
    let mut server = server();
    server.clients.push(client(1, 1, 3));
    server.clients.push(client(2, 2, 8));
    server.clock.lobby.start(0);
    assert!(server.timers(2_900_000_000).is_empty());
    assert!(server.clock.lobby.running);

    let actions = server.timers(3_100_000_000);
    assert_eq!(
        actions,
        vec![Action::Announce {
            message: MessageTypes::LoadRaceMessage {},
            recipients: vec![
                Recipient { to: peer(1), sequence: 3 },
                Recipient { to: peer(2), sequence: 8 }
            ],
        }]
    );
    assert!(!server.clock.lobby.running);
    assert!(server.clock.stage_load_timeout.running);
    assert_eq!(server.clock.stage_load_timeout.start, 3_100_000_000);
    assert_eq!(server.clients[0].counter, 4);
    assert_eq!(server.clients[1].counter, 9);

    assert!(server.timers(10 * SECOND).is_empty());
    assert!(server.timers(23_100_000_000).is_empty());
    let actions = server.timers(23_100_000_001);
    assert_eq!(
        actions,
        vec![Action::Announce {
            message: MessageTypes::StartRaceMessage {},
            recipients: vec![
                Recipient { to: peer(1), sequence: 4 },
                Recipient { to: peer(2), sequence: 9 }
            ],
        }]
    );
    assert!(!server.clock.stage_load_timeout.running);
    assert!(server.timers(60 * SECOND).is_empty());
}

#[test]
fn both_timers_may_run_out_in_one_tick() {
    let mut server = server();
    server.clock.lobby.start(0);
    server.clock.stage_load_timeout.start(0);
    let actions = server.timers(30 * SECOND);
    assert_eq!(
        actions,
        vec![
            Action::Announce { message: MessageTypes::LoadRaceMessage {}, recipients: vec![] },
            Action::Announce { message: MessageTypes::StartRaceMessage {}, recipients: vec![] },
        ]
    );
}

#[test]
fn connect_is_answered_with_the_application_identifier() {
    let mut server = server();
    let mut buffer = Buffer::default();
    buffer.write_string("X");
    buffer.write_f32(1.0f32.to_bits());
    buffer.write_f32(2.0f32.to_bits());
    buffer.write_f32(3.0f32.to_bits());
    let stream = inbound(&mut buffer, Header::Connect, 0, peer(1));
    let out = server.update(&stream, None, 0, 0);
    assert_eq!(out.result, Ok(Note::Replied));
    assert_eq!(out.actions.len(), 1);
    let (to, datagram) = sent(&out.actions[0]);
    assert_eq!(to, peer(1));
    assert_eq!(datagram[0], 132);
    let mut reply = open(&datagram, peer(0));
    assert_eq!(reply.size as usize, 8 * reply.data.len());
    assert_eq!(reply.read_string(), Ok("Sanicball".to_string()));
    assert_eq!(reply.ptr, reply.data.len());
    assert!(server.clients.is_empty());
}

#[test]
fn connect_without_its_numbers_is_dropped() {
    let mut server = server();
    let mut buffer = Buffer::default();
    buffer.write_string("X");
    buffer.write_f32(0);
    buffer.write_f32(0);
    let stream = inbound(&mut buffer, Header::Connect, 0, peer(1));
    let out = server.update(&stream, None, 0, 0);
    assert_eq!(out.result, Err(Fault::Decode(DecodeError::Truncated)));
    assert!(out.actions.is_empty());
}

#[test]
fn ping_is_answered_with_token_and_clock() {
    let mut server = server();
    let mut buffer = Buffer::default();
    buffer.write_byte(0x2a);
    let stream = inbound(&mut buffer, Header::Ping, 0, peer(2));
    let stamp = 12.5f32.to_bits();
    let out = server.update(&stream, None, 0, stamp);
    assert_eq!(out.result, Ok(Note::Replied));
    let mut expected = vec![130, 0, 0, 40, 0, 0x2a];
    expected.extend_from_slice(&12.5f32.to_le_bytes());
    assert_eq!(out.actions, vec![Action::Send { to: peer(2), datagram: expected }]);

    let mut empty = Buffer::default();
    let stream = inbound(&mut empty, Header::Ping, 0, peer(2));
    let out = server.update(&stream, None, 0, stamp);
    assert_eq!(out.result, Err(Fault::Decode(DecodeError::Truncated)));
    assert!(out.actions.is_empty());
}

#[test]
fn established_connection_gets_the_match_state() {
    let mut server = with_two_players();
    let mut buffer = Buffer::default();
    buffer.write_f32(0);
    let stream = inbound(&mut buffer, Header::ConnectionEstablished, 0, peer(5));
    let out = server.update(&stream, None, 0, 0);
    assert_eq!(out.result, Ok(Note::Replied));
    let (to, datagram) = sent(&out.actions[0]);
    assert_eq!(to, peer(5));
    assert_eq!(datagram[0], 67);
    let mut init = open(&datagram, peer(5));
    assert_eq!(init.sequence, 0);
    assert_eq!(init.read_game_header(), Ok(GameHeader::InitMessage));
    let clients = init.read_clients().unwrap();
    assert_eq!(clients.len(), 1);
    assert_eq!(clients[0].guid, server.clients[0].guid);
    assert_eq!(clients[0].name, "X");
    let players = init.read_players().unwrap();
    assert_eq!(players.len(), 2);
    assert_eq!(players[1].ctrl_type, 1);
    assert_eq!(players[1].char_id, 5);
    let read = init.read_settings().unwrap();
    assert_eq!(read.laps, 3);
    assert_eq!(read.vote_ratio, 0.5f32.to_bits());
    assert_eq!(init.read_bool(), Ok(false));
    assert_eq!(init.read_i32(), Ok(67));
    assert_eq!(init.ptr, init.data.len());
}

#[test]
fn match_state_that_does_not_fit_is_an_overflow() {
    let mut server = server();
    for n in 0..70 {
        server.clients.push(client(n as u8, n, 0));
    }
    let mut buffer = Buffer::default();
    buffer.write_f32(0);
    let stream = inbound(&mut buffer, Header::ConnectionEstablished, 0, peer(5));
    let out = server.update(&stream, None, 0, 0);
    assert_eq!(out.result, Err(Fault::Overflow));
    assert!(out.actions.is_empty());
}

#[test]
fn acknowledge_needs_no_reply() {
    let mut server = server();
    let mut buffer = Buffer::default();
    let stream = inbound(&mut buffer, Header::Acknowledge, 0, peer(1));
    let out = server.update(&stream, None, 0, 0);
    assert_eq!(out.result, Ok(Note::Silent));
    assert!(out.actions.is_empty());
}

#[test]
fn unaccepted_classes_are_dropped_or_fatal() {
    let mut server = server();
    let mut region = [0u8; 1500];
    region[0] = 135;
    let stream = Stream::new(&region, 5, peer(1)).unwrap();
    let out = server.update(&stream, None, 0, 0);
    assert_eq!(out.result, Err(Fault::Decode(DecodeError::DisabledHeader)));
    region[0] = 200;
    let stream = Stream::new(&region, 5, peer(1)).unwrap();
    let out = server.update(&stream, None, 0, 0);
    assert_eq!(out.result, Err(Fault::Decode(DecodeError::InvalidHeader)));
    assert!(out.actions.is_empty());

    let mut stream = Stream::default();
    for header in [Header::Unconnected, Header::Pong, Header::ConnectResponse] {
        stream.header = Ok(header);
        let out = server.update(&stream, None, 0, 0);
        assert_eq!(out.result, Err(Fault::Unhandled));
        assert!(out.actions.is_empty());
    }
}

#[test]
fn match_frame_is_acknowledged_applied_and_relayed() {
    let mut server = server();
    server.clients.push(client(1, 1, 10));
    server.clients.push(client(2, 2, 20));
    let json = "{\"$type\":\"SanicballCore.MatchMessages.StartRaceMessage, SanicballCore\"}";
    let stream = match_frame(json, 300, peer(2));
    let stamp = 2.0f32.to_bits();
    let out = server.update(&stream, Some(MessageTypes::StartRaceMessage {}), 0, stamp);
    assert_eq!(out.result, Ok(Note::Relayed { effect: Effect::Applied, resynced: true }));
    assert_eq!(out.actions.len(), 3);
    assert_eq!(out.actions[0], Action::Send { to: peer(2), datagram: ack_of(&stream) });
    assert_eq!(ack_of(&stream)[5..], [67, 44, 1]);

    let (to1, first) = sent(&out.actions[1]);
    let (to2, second) = sent(&out.actions[2]);
    assert_eq!((to1, to2), (peer(1), peer(2)));
    let mut one = open(&first, peer(1));
    assert_eq!(one.header, Ok(Header::UserReliableOrdered { channel: 0 }));
    assert_eq!(one.sequence, 10);
    assert_eq!(open(&second, peer(2)).sequence, 301);
    assert_eq!(&first[3..], &second[3..]);
    assert_eq!(one.read_game_header(), Ok(GameHeader::MatchMessage));
    assert_eq!(one.read_f32(), Ok(stamp));
    assert_eq!(one.read_string(), Ok(json.to_string()));
    assert_eq!(one.ptr, one.data.len());
    assert_eq!(server.clients[0].counter, 11);
    assert_eq!(server.clients[1].counter, 302);
}

#[test]
fn joining_sender_is_resynced_and_gets_the_relay() {
    let mut server = server();
    server.clients.push(client(1, 1, 10));
    let stream = match_frame("{}", 7, peer(3));
    let out = server.update(&stream, Some(joined(A, "New")), 0, 0);
    assert_eq!(out.result, Ok(Note::Relayed { effect: Effect::Applied, resynced: true }));
    assert_eq!(out.actions.len(), 1 + 3 + 2);
    assert!(matches!(out.actions[1], Action::Announce { .. }));
    assert!(matches!(out.actions[3], Action::Announce { .. }));
    let (to, datagram) = sent(&out.actions[5]);
    assert_eq!(to, peer(3));
    assert_eq!(open(&datagram, to).sequence, 8);
    assert_eq!(server.clients[1].counter, 9);
    assert_eq!(server.clients[0].counter, 11);
}

#[test]
fn unknown_sender_is_relayed_without_resync() {
    let mut server = server();
    server.clients.push(client(1, 1, 10));
    let stream = match_frame("{}", 7, peer(9));
    let out = server.update(&stream, Some(chat("hi")), 0, 0);
    assert_eq!(out.result, Ok(Note::Relayed { effect: Effect::Accepted, resynced: false }));
    assert_eq!(out.actions.len(), 2);
    assert_eq!(server.clients[0].counter, 11);
}

#[test]
fn undecoded_or_refused_messages_are_only_acknowledged() {
    let mut server = server();
    server.clients.push(client(1, 1, 10));
    let before = server.clone();
    let stream = match_frame("not json", 1, peer(1));
    let out = server.update(&stream, None, 0, 0);
    assert_eq!(out.result, Err(Fault::Decode(DecodeError::BadMessage)));
    assert_eq!(out.actions, vec![Action::Send { to: peer(1), datagram: ack_of(&stream) }]);
    let out = server.update(&stream, Some(joined("bad", "X")), 0, 0);
    assert_eq!(out.result, Err(Fault::Decode(DecodeError::BadGuid)));
    assert_eq!(out.actions.len(), 1);
    let out =
        server.update(&stream, Some(MessageTypes::AutoStartTimerMessage { enabled: false }), 0, 0);
    assert_eq!(out.result, Err(Fault::Unsupported));
    assert_eq!(out.actions.len(), 1);
    assert_eq!(server, before);
}

#[test]
fn malformed_user_data_is_acknowledged_and_dropped() {
    let mut server = server();
    server.clients.push(client(1, 1, 10));
    let mut buffer = Buffer::default();
    buffer.write_game_header(GameHeader::InitMessage);
    let stream = inbound(&mut buffer, Header::UserReliableOrdered { channel: 0 }, 2, peer(1));
    let out = server.update(&stream, None, 0, 0);
    assert_eq!(out.result, Err(Fault::Decode(DecodeError::UnexpectedInit)));
    assert_eq!(out.actions, vec![Action::Send { to: peer(1), datagram: ack_of(&stream) }]);

    let mut buffer = Buffer::default();
    buffer.write_byte(9);
    let stream = inbound(&mut buffer, Header::UserUnreliable, 2, peer(1));
    let out = server.update(&stream, None, 0, 0);
    assert_eq!(out.result, Err(Fault::Decode(DecodeError::UnknownGameHeader)));
    assert_eq!(out.actions.len(), 1);

    let mut buffer = Buffer::default();
    let stream = inbound(&mut buffer, Header::UserUnreliable, 2, peer(1));
    let out = server.update(&stream, None, 0, 0);
    assert_eq!(out.result, Err(Fault::Decode(DecodeError::Truncated)));

    let mut buffer = Buffer::default();
    buffer.write_game_header(GameHeader::MatchMessage);
    buffer.write_f32(0);
    buffer.write_byte(200);
    let stream = inbound(&mut buffer, Header::UserUnreliable, 2, peer(1));
    let out = server.update(&stream, Some(chat("x")), 0, 0);
    assert_eq!(out.result, Err(Fault::Decode(DecodeError::Truncated)));
    assert_eq!(server.clients[0].counter, 10);
}

#[test]
fn movement_goes_to_everybody_else_unchanged() {
    let mut server = server();
    server.clients.push(client(1, 1, 10));
    server.clients.push(client(2, 2, 20));
    server.clients.push(client(3, 3, 30));
    let record: Vec<u8> = (0..85).collect();
    let mut buffer = Buffer::default();
    buffer.write_game_header(GameHeader::PlayerMovementMessage);
    buffer.write_time(9.0f32.to_bits());
    for b in record.iter() {
        buffer.write_byte(*b);
    }
    let stream = inbound(&mut buffer, Header::UserUnreliable, 4, peer(2));
    let stamp = 100.0f32.to_bits();
    let out = server.update(&stream, None, 0, stamp);
    assert_eq!(out.result, Ok(Note::Forwarded));
    assert_eq!(out.actions.len(), 3);
    assert_eq!(out.actions[0], Action::Send { to: peer(2), datagram: ack_of(&stream) });
    let mut expected = vec![1, 0, 0, ((90 * 8) & 0xff) as u8, ((90 * 8) >> 8) as u8, 2];
    expected.extend_from_slice(&100.0f32.to_le_bytes());
    expected.extend_from_slice(&record);
    assert_eq!(out.actions[1], Action::Send { to: peer(1), datagram: expected.clone() });
    assert_eq!(out.actions[2], Action::Send { to: peer(3), datagram: expected });
    let counters: Vec<usize> = server.clients.iter().map(|c| c.counter).collect();
    assert_eq!(counters, vec![10, 20, 30]);
}

#[test]
fn movement_from_a_stranger_goes_to_everybody() {
    let mut server = server();
    server.clients.push(client(1, 1, 10));
    let mut buffer = Buffer::default();
    buffer.write_game_header(GameHeader::PlayerMovementMessage);
    buffer.write_time(0);
    let stream = inbound(&mut buffer, Header::UserReliableOrdered { channel: 5 }, 4, peer(8));
    let out = server.update(&stream, None, 0, 0);
    assert_eq!(out.result, Ok(Note::Forwarded));
    assert_eq!(out.actions.len(), 2);
    assert_eq!(sent(&out.actions[1]).0, peer(1));
}

#[test]
fn announcement_frames_the_qualified_text() {
    let message = MessageTypes::LoadRaceMessage {};
    let stamp = 3.5f32.to_bits();
    let datagram =
        announcement(&message, "{\"$type\":\"LoadRaceMessage\"}".to_string(), stamp).unwrap();
    let mut stream = open(&datagram, peer(1));
    assert_eq!(stream.header, Ok(Header::UserReliableOrdered { channel: 0 }));
    assert_eq!(stream.sequence, 0);
    assert_eq!(stream.size as usize, 8 * stream.data.len());
    assert_eq!(stream.read_game_header(), Ok(GameHeader::MatchMessage));
    assert_eq!(stream.read_f32(), Ok(stamp));
    assert_eq!(
        stream.read_string(),
        Ok("{\"$type\":\"SanicballCore.MatchMessages.LoadRaceMessage, SanicballCore\"}".to_string())
    );
    let huge = format!("{{\"$type\":\"ChatMessage\",\"Text\":\"{}\"}}", "x".repeat(1500));
    assert_eq!(announcement(&chat("x"), huge, stamp), Err(Fault::Overflow));
}

#[test]
fn announcement_keeps_a_variant_name_in_the_chat_text() {
    let json = "{\"$type\":\"ChatMessage\",\"From\":\"Server\",\"Type\":\"System\",\"Text\":\"\\\"ChatMessage\\\", Has Joined The Match\"}";
    let datagram = announcement(&chat("x"), json.to_string(), 0).unwrap();
    let mut stream = open(&datagram, peer(1));
    stream.read_game_header().unwrap();
    stream.read_f32().unwrap();
    assert_eq!(
        stream.read_string(),
        Ok("{\"$type\":\"SanicballCore.MatchMessages.ChatMessage, SanicballCore\",\"From\":\"Server\",\"Type\":\"System\",\"Text\":\"\\\"ChatMessage\\\", Has Joined The Match\"}".to_string())
    );
}

#[test]
fn match_text_reads_the_text_of_a_match_frame() {
    let json = "{\"$type\":\"SanicballCore.MatchMessages.LoadLobbyMessage, SanicballCore\"}";
    let stream = match_frame(json, 3, peer(1));
    assert_eq!(match_text(&stream), Some("{\"$type\":\"LoadLobbyMessage\"}".to_string()));
    let stream = match_frame("free text", 3, peer(1));
    assert_eq!(match_text(&stream), Some("free text".to_string()));

    let mut buffer = Buffer::default();
    buffer.write_game_header(GameHeader::MatchMessage);
    buffer.write_time(0);
    buffer.write_string(json);
    let unreliable = inbound(&mut buffer, Header::UserUnreliable, 0, peer(1));
    assert!(match_text(&unreliable).is_some());
    let ping = inbound(&mut buffer, Header::Ping, 0, peer(1));
    assert_eq!(match_text(&ping), None);
}

#[test]
fn match_text_is_absent_from_other_frames() {
    let mut buffer = Buffer::default();
    buffer.write_game_header(GameHeader::PlayerMovementMessage);
    buffer.write_time(0);
    buffer.write_string("{}");
    let movement = inbound(&mut buffer, Header::UserUnreliable, 0, peer(1));
    assert_eq!(match_text(&movement), None);

    let mut buffer = Buffer::default();
    buffer.write_game_header(GameHeader::MatchMessage);
    buffer.write_byte(1);
    let short = inbound(&mut buffer, Header::UserUnreliable, 0, peer(1));
    assert_eq!(match_text(&short), None);

    let mut buffer = Buffer::default();
    buffer.write_game_header(GameHeader::MatchMessage);
    buffer.write_time(0);
    buffer.write_byte(9);
    let cut = inbound(&mut buffer, Header::UserReliableOrdered { channel: 0 }, 0, peer(1));
    assert_eq!(match_text(&cut), None);
    assert_eq!(match_text(&Stream::default()), None);
}
