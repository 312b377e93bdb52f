use sanicball_relay::buffer::Buffer;
use sanicball_relay::data::{Client, Endpoint, MatchConfig, Player, PlayerPosition, Stopwatch};
use sanicball_relay::errors::DecodeError;
use sanicball_relay::game::{CtrlType, GameHeader};
use sanicball_relay::headers::Header;
use sanicball_relay::stream::Stream;

fn origin() -> Endpoint {
    Endpoint::V4 { ip: 0x7f00_0001, port: 4000 }
}

fn reopen(buffer: &mut Buffer) -> Stream {
    buffer.write_header(Header::UserUnreliable);
    let bytes = buffer.message();
    let mut region = [0u8; 1500];
    region[..bytes.len()].copy_from_slice(&bytes);
    Stream::new(&region, bytes.len(), origin()).unwrap()
}

fn payload_of(bytes: &[u8]) -> Stream {
    let mut region = [0u8; 1500];
    region[0] = 1;
    region[5..5 + bytes.len()].copy_from_slice(bytes);
    Stream::new(&region, 5 + bytes.len(), origin()).unwrap()
}

#[test]
fn byte_and_bool_layout() {
    let mut buffer = Buffer::default();
    buffer.write_byte(0xab);
    buffer.write_bool(true);
    buffer.write_bool(false);
    assert_eq!(&buffer.message()[5..], &[0xab, 1, 0]);
    let mut stream = reopen(&mut buffer);
    assert_eq!(stream.read_byte(), Ok(0xab));
    assert_eq!(stream.read_bool(), Ok(true));
    assert_eq!(stream.read_bool(), Ok(false));
    assert_eq!(stream.read_byte(), Err(DecodeError::Truncated));
}

#[test]
fn bool_reads_any_nonzero_byte_as_true() {
    let mut stream = payload_of(&[2, 255, 0]);
    assert_eq!(stream.read_bool(), Ok(true));
    assert_eq!(stream.read_bool(), Ok(true));
    assert_eq!(stream.read_bool(), Ok(false));
}

#[test]
fn i32_is_little_endian_twos_complement() {
    let mut buffer = Buffer::default();
    buffer.write_i32(&1);
    buffer.write_i32(&-1);
    buffer.write_i32(&0x0102_0304);
    buffer.write_i32(&i32::MIN);
    buffer.write_i32(&i32::MAX);
    assert_eq!(
        &buffer.message()[5..],
        &[
            1, 0, 0, 0, 0xff, 0xff, 0xff, 0xff, 4, 3, 2, 1, 0, 0, 0, 0x80, 0xff, 0xff, 0xff,
            0x7f
        ]
    );
    let mut stream = reopen(&mut buffer);
    assert_eq!(stream.read_i32(), Ok(1));
    assert_eq!(stream.read_i32(), Ok(-1));
    assert_eq!(stream.read_i32(), Ok(0x0102_0304));
    assert_eq!(stream.read_i32(), Ok(i32::MIN));
    assert_eq!(stream.read_i32(), Ok(i32::MAX));
}

#[test]
fn i32_truncated_leaves_cursor() {
    let mut stream = payload_of(&[9, 1, 2, 3]);
    assert_eq!(stream.read_byte(), Ok(9));
    assert_eq!(stream.read_i32(), Err(DecodeError::Truncated));
    assert_eq!(stream.ptr, 1);
    assert_eq!(stream.read_byte(), Ok(1));
}

#[test]
fn floats_round_trip_bit_for_bit() {
    let values = [
        0.0f32,
        -0.0,
        1.5,
        f32::MAX,
        f32::MIN_POSITIVE,
        f32::from_bits(1),
        f32::INFINITY,
        f32::NEG_INFINITY,
        f32::NAN,
    ];
    let mut buffer = Buffer::default();
    for v in values.iter() {
        buffer.write_f32(v.to_bits());
    }
    assert_eq!(&buffer.message()[9..13], &(-0.0f32).to_le_bytes());
    assert_eq!(&buffer.message()[13..17], &1.5f32.to_le_bytes());
    let mut stream = reopen(&mut buffer);
    for v in values.iter() {
        assert_eq!(stream.read_f32(), Ok(v.to_bits()));
    }
}

#[test]
fn string_layout_short() {
    let mut buffer = Buffer::default();
    buffer.write_string("hi");
    buffer.write_string("");
    assert_eq!(&buffer.message()[5..], &[2, b'h', b'i', 0]);
    let mut stream = reopen(&mut buffer);
    assert_eq!(stream.read_string(), Ok("hi".to_string()));
    assert_eq!(stream.read_string(), Ok(String::new()));
}

#[test]
fn string_prefix_grows_at_128_bytes() {
    let short = "a".repeat(127);
    let long = "b".repeat(128);
    let longer = "c".repeat(300);
    let mut buffer = Buffer::default();
    buffer.write_string(&short);
    buffer.write_string(&long);
    buffer.write_string(&longer);
    let bytes = buffer.message();
    assert_eq!(bytes[5], 0x7f);
    assert_eq!(&bytes[5 + 128..5 + 130], &[0x80, 0x01]);
    assert_eq!(&bytes[5 + 128 + 130..5 + 128 + 132], &[0xac, 0x02]);
    assert_eq!(bytes.len(), 5 + 128 + 130 + 302);
    let mut stream = reopen(&mut buffer);
    assert_eq!(stream.read_string(), Ok(short));
    assert_eq!(stream.read_string(), Ok(long));
    assert_eq!(stream.read_string(), Ok(longer));
}

#[test]
fn string_counts_bytes_not_characters() {
    let text = "h\u{e9}llo \u{1f3c1}";
    let mut buffer = Buffer::default();
    buffer.write_string(text);
    assert_eq!(buffer.message()[5] as usize, text.len());
    let mut stream = reopen(&mut buffer);
    assert_eq!(stream.read_string(), Ok(text.to_string()));
}

#[test]
fn string_errors() {
    let mut truncated = payload_of(&[5, b'a', b'b']);
    assert_eq!(truncated.read_string(), Err(DecodeError::Truncated));
    assert_eq!(truncated.ptr, 0);
    let mut unfinished_prefix = payload_of(&[0x80]);
    assert_eq!(unfinished_prefix.read_string(), Err(DecodeError::Truncated));
    let mut too_large = payload_of(&[0xff, 0xff, 0xff, 0xff, 0xff, 0xff, 0xff, 0xff, 0xff, 0x02]);
    assert_eq!(too_large.read_string(), Err(DecodeError::BadLength));
    assert_eq!(too_large.ptr, 0);
    let mut largest = payload_of(&[0xff, 0xff, 0xff, 0xff, 0xff, 0xff, 0xff, 0xff, 0xff, 0x01]);
    assert_eq!(largest.read_string(), Err(DecodeError::Truncated));
    let mut not_utf8 = payload_of(&[2, 0xc3, 0x28]);
    assert_eq!(not_utf8.read_string(), Err(DecodeError::BadUtf8));
    let mut padded = payload_of(&[0x82, 0x00, b'o', b'k']);
    assert_eq!(padded.read_string(), Ok("ok".to_string()));
}

#[test]
fn string_prefix_may_be_padded() {
    let mut six = payload_of(&[0x80, 0x80, 0x80, 0x80, 0x80, 0x00, b'x']);
    assert_eq!(six.read_string(), Ok(String::new()));
    assert_eq!(six.ptr, 6);
    let mut long = vec![0x82u8];
    long.extend_from_slice(&[0x80; 30]);
    long.push(0x00);
    long.extend_from_slice(b"ok!");
    let mut stream = payload_of(&long);
    assert_eq!(stream.read_string(), Ok("ok".to_string()));
    assert_eq!(stream.ptr, 34);
    assert_eq!(stream.read_byte(), Ok(b'!'));
}

#[test]
fn guid_layout_and_errors() {
    let guid: Vec<u8> = (1..=16).collect();
    let mut buffer = Buffer::default();
    buffer.write_guid(&guid);
    let bytes = buffer.message();
    assert_eq!(&bytes[5..9], &[16, 0, 0, 0]);
    assert_eq!(&bytes[9..], &guid[..]);
    let mut stream = reopen(&mut buffer);
    assert_eq!(stream.read_guid(), Ok(guid));

    let mut negative = payload_of(&[0xff, 0xff, 0xff, 0xff, 1, 2]);
    assert_eq!(negative.read_guid(), Err(DecodeError::BadLength));
    let mut short = payload_of(&[3, 0, 0, 0, 1, 2]);
    assert_eq!(short.read_guid(), Err(DecodeError::Truncated));
    assert_eq!(short.ptr, 0);
}

#[test]
fn counted_bytes() {
    let mut stream = payload_of(&[2, 7, 8, 3, 1]);
    assert_eq!(stream.read_bytes(), Ok(vec![7, 8]));
    assert_eq!(stream.read_bytes(), Err(DecodeError::Truncated));
}

#[test]
fn vectors_round_trip() {
    let v3 = [1.0f32.to_bits(), (-2.5f32).to_bits(), f32::NAN.to_bits()];
    let v4 = [0u32, 1, 0x8000_0000, u32::MAX];
    let mut buffer = Buffer::default();
    buffer.write_vec3(&v3);
    buffer.write_vec4(&v4);
    assert_eq!(buffer.message().len(), 5 + 12 + 16);
    let mut stream = reopen(&mut buffer);
    assert_eq!(stream.read_vec3(), Ok(v3));
    assert_eq!(stream.read_vec4(), Ok(v4));
    assert_eq!(stream.read_vec3(), Err(DecodeError::Truncated));
}

#[test]
fn game_header_codes() {
    let mut buffer = Buffer::default();
    buffer.write_game_header(GameHeader::MatchMessage);
    buffer.write_game_header(GameHeader::InitMessage);
    buffer.write_game_header(GameHeader::PlayerMovementMessage);
    buffer.write_byte(3);
    assert_eq!(&buffer.message()[5..], &[0, 1, 2, 3]);
    let mut stream = reopen(&mut buffer);
    assert_eq!(stream.read_game_header(), Ok(GameHeader::MatchMessage));
    assert_eq!(stream.read_game_header(), Ok(GameHeader::InitMessage));
    assert_eq!(stream.read_game_header(), Ok(GameHeader::PlayerMovementMessage));
    assert_eq!(stream.read_game_header(), Err(DecodeError::UnknownGameHeader));
    assert_eq!(stream.ptr, 3);
}

#[test]
fn ctrl_type_codes() {
    let mut stream = payload_of(&[0, 1, 2, 3, 4, 5]);
    assert_eq!(stream.read_ctrl_type(), Ok(CtrlType::Keyboard));
    assert_eq!(stream.read_ctrl_type(), Ok(CtrlType::Joystick1));
    assert_eq!(stream.read_ctrl_type(), Ok(CtrlType::Joystick2));
    assert_eq!(stream.read_ctrl_type(), Ok(CtrlType::Joystick3));
    assert_eq!(stream.read_ctrl_type(), Ok(CtrlType::Joystick4));
    assert_eq!(stream.read_ctrl_type(), Err(DecodeError::UnknownCtrlType));
    assert_eq!(CtrlType::from(3), CtrlType::Joystick3);
    assert_eq!(CtrlType::from(9), CtrlType::Unassigned);
    assert_eq!(CtrlType::from(-1), CtrlType::Unassigned);
    assert_eq!(CtrlType::Unassigned.index(), -1);
    assert_eq!(CtrlType::Joystick4.index(), 4);
    assert_eq!(CtrlType::Unassigned.byte(), 255);
}

fn client(guid: u8, name: &str, counter: usize) -> Client {
    Client {
        guid: vec![guid; 16],
        name: name.to_string(),
        connection: Endpoint::V4 { ip: 10, port: 1000 + guid as u16 },
        is_loading: true,
        wants_lobby: true,
        counter,
    }
}

#[test]
fn client_list_round_trip() {
    let clients = vec![client(1, "Ann", 4), client(2, "", 9), client(3, "Zo\u{eb}", 0)];
    let mut buffer = Buffer::default();
    buffer.write_clients(&clients);
    let bytes = buffer.message();
    assert_eq!(&bytes[5..9], &[3, 0, 0, 0]);
    assert_eq!(&bytes[9..13], &[16, 0, 0, 0]);
    assert_eq!(&bytes[29..33], &[3, b'A', b'n', b'n']);
    let mut stream = reopen(&mut buffer);
    let read = stream.read_clients().unwrap();
    assert_eq!(read.len(), 3);
    for (got, sent) in read.iter().zip(clients.iter()) {
        assert_eq!(got.guid, sent.guid);
        assert_eq!(got.name, sent.name);
        assert_eq!(got.connection, origin());
        assert!(!got.is_loading);
        assert!(!got.wants_lobby);
        assert_eq!(got.counter, 0);
    }
    assert_eq!(stream.ptr, stream.data.len());
}

#[test]
fn client_list_edge_cases() {
    let mut empty = payload_of(&[0, 0, 0, 0, 7]);
    assert_eq!(empty.read_clients(), Ok(vec![]));
    assert_eq!(empty.ptr, 4);
    let mut negative = payload_of(&[0xfe, 0xff, 0xff, 0xff, 7]);
    assert_eq!(negative.read_clients(), Ok(vec![]));
    let mut cut = payload_of(&[2, 0, 0, 0, 1, 0, 0, 0, 9, 1, b'x']);
    assert_eq!(cut.read_clients(), Err(DecodeError::Truncated));
    assert_eq!(cut.ptr, 0);
}

fn player(guid: u8, ctrl_type: i32, char_id: i32, ready: bool) -> Player {
    Player {
        guid: vec![guid; 16],
        ctrl_type,
        char_id,
        ready_to_race: ready,
        is_racing: true,
        race_timeout: Stopwatch {},
        has_timed_out: true,
    }
}

#[test]
fn player_list_round_trip() {
    let players = vec![player(1, 0, 3, true), player(1, 2, -7, false)];
    let mut buffer = Buffer::default();
    buffer.write_players(&players);
    let bytes = buffer.message();
    assert_eq!(bytes.len(), 5 + 4 + 2 * (20 + 4 + 1 + 4));
    assert_eq!(&bytes[29..38], &[0, 0, 0, 0, 1, 3, 0, 0, 0]);
    let mut stream = reopen(&mut buffer);
    let read = stream.read_players().unwrap();
    assert_eq!(read.len(), 2);
    for (got, sent) in read.iter().zip(players.iter()) {
        assert_eq!(got.guid, sent.guid);
        assert_eq!(got.ctrl_type, sent.ctrl_type);
        assert_eq!(got.char_id, sent.char_id);
        assert_eq!(got.ready_to_race, sent.ready_to_race);
        assert!(!got.is_racing);
        assert!(!got.has_timed_out);
    }
    let mut cut = payload_of(&[1, 0, 0, 0, 0, 0, 0, 0, 1, 0, 0]);
    assert_eq!(cut.read_players(), Err(DecodeError::Truncated));
}

#[test]
fn settings_round_trip() {
    let config = MatchConfig {
        stage_id: 1,
        laps: 2,
        ai_count: 3,
        ai_skill: 4,
        auto_start_time: 5,
        auto_start_min_players: 6,
        auto_return_time: 7,
        vote_ratio: 0.75f32.to_bits(),
        stage_rotation_mode: -1,
    };
    let mut buffer = Buffer::default();
    buffer.write_settings(&config);
    let bytes = buffer.message();
    assert_eq!(bytes.len(), 5 + 36);
    assert_eq!(&bytes[33..37], &0.75f32.to_le_bytes());
    let mut stream = reopen(&mut buffer);
    let read = stream.read_settings().unwrap();
    assert_eq!(read.stage_id, 1);
    assert_eq!(read.laps, 2);
    assert_eq!(read.ai_count, 3);
    assert_eq!(read.ai_skill, 4);
    assert_eq!(read.auto_start_time, 5);
    assert_eq!(read.auto_start_min_players, 6);
    assert_eq!(read.auto_return_time, 7);
    assert_eq!(f32::from_bits(read.vote_ratio), 0.75);
    assert_eq!(read.stage_rotation_mode, -1);
    let mut cut = payload_of(&[0; 35]);
    assert_eq!(cut.read_settings(), Err(DecodeError::Truncated));
}

#[test]
fn player_position_round_trip() {
    let position = PlayerPosition {
        guid: vec![7; 16],
        ctrl_type: CtrlType::Joystick2,
        position: [1.0f32.to_bits(), 2.0f32.to_bits(), 3.0f32.to_bits()],
        rotation: [0, 0, 0, 1.0f32.to_bits()],
        velocity: [(-1.0f32).to_bits(), 0, 0],
        angular_velocity: [4, 5, 6],
        direction: [7, 8, 9],
    };
    let mut buffer = Buffer::default();
    buffer.write_player_position(&position);
    let bytes = buffer.message();
    assert_eq!(bytes.len(), 5 + 20 + 1 + 64);
    assert_eq!(bytes[25], 2);
    let mut stream = reopen(&mut buffer);
    assert_eq!(stream.read_player_pos(), Ok(position));
    let mut bad = payload_of(&[0, 0, 0, 0, 9]);
    assert_eq!(bad.read_player_pos(), Err(DecodeError::UnknownCtrlType));
}

#[test]
fn buffer_room_shrinks_with_payload() {
    let mut buffer = Buffer::default();
    assert_eq!(buffer.room(), 1495);
    buffer.write_i32(&5);
    assert_eq!(buffer.room(), 1491);
    let filler = "x".repeat(1489);
    buffer.write_string(&filler);
    assert_eq!(buffer.room(), 0);
    assert_eq!(buffer.message().len(), 1500);
}

#[test]
fn stream_copy_rewinds() {
    let mut stream = payload_of(&[1, 2, 3]);
    assert_eq!(stream.read_byte(), Ok(1));
    let mut copy = Stream::from(&stream);
    assert_eq!(copy.ptr, 0);
    assert_eq!(copy.data, stream.data);
    assert_eq!(copy.read_byte(), Ok(1));
    assert_eq!(stream.read_byte(), Ok(2));
}
