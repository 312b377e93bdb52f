use sanicball_relay::data::{Client, Endpoint, Player, Stopwatch};
use sanicball_relay::errors::DecodeError;
use sanicball_relay::wire::{
    clients_size, decode_byte, decode_clients, decode_guid, decode_i32, decode_string, decode_u32,
    decode_varint, guid_size, players_size, string_size, varint_size,
};

#[test]
fn varint_sizes() {
    assert_eq!(varint_size(0), 1);
    assert_eq!(varint_size(127), 1);
    assert_eq!(varint_size(128), 2);
    assert_eq!(varint_size(16383), 2);
    assert_eq!(varint_size(16384), 3);
    assert_eq!(varint_size(u32::MAX as usize), 5);
}

#[test]
fn field_sizes() {
    assert_eq!(string_size(""), 1);
    assert_eq!(string_size("abc"), 4);
    assert_eq!(string_size("\u{e9}"), 3);
    assert_eq!(string_size(&"x".repeat(128)), 130);
    assert_eq!(guid_size(&vec![0; 16]), 20);
    assert_eq!(guid_size(&vec![]), 4);
}

#[test]
fn list_sizes() {
    let clients = vec![
        Client {
            guid: vec![1; 16],
            name: "Ann".to_string(),
            connection: Endpoint::V4 { ip: 1, port: 1 },
            is_loading: false,
            wants_lobby: false,
            counter: 0,
        },
        Client {
            guid: vec![2; 3],
            name: String::new(),
            connection: Endpoint::V4 { ip: 1, port: 2 },
            is_loading: false,
            wants_lobby: false,
            counter: 0,
        },
    ];
    assert_eq!(clients_size(&vec![]), 4);
    assert_eq!(clients_size(&clients), 4 + (20 + 4) + (7 + 1));
    let players = vec![Player {
        guid: vec![1; 16],
        ctrl_type: 0,
        char_id: 0,
        ready_to_race: false,
        is_racing: false,
        race_timeout: Stopwatch {},
        has_timed_out: false,
    }];
    assert_eq!(players_size(&vec![]), 4);
    assert_eq!(players_size(&players), 4 + 29);
}

#[test]
fn decoders_read_at_a_position() {
    let data = [9u8, 0x2a, 0xfe, 0xff, 0xff, 0xff, 2, b'o', b'k', 1, 0, 0, 0, 7];
    assert_eq!(decode_byte(&data, 0), Ok((9, 1)));
    assert_eq!(decode_byte(&data, 14), Err(DecodeError::Truncated));
    assert_eq!(decode_byte(&data, usize::MAX), Err(DecodeError::Truncated));
    assert_eq!(decode_i32(&data, 2), Ok((-2, 6)));
    assert_eq!(decode_u32(&data, 2), Ok((0xffff_fffe, 6)));
    assert_eq!(decode_u32(&data, 11), Err(DecodeError::Truncated));
    assert_eq!(decode_u32(&data, usize::MAX - 1), Err(DecodeError::Truncated));
    assert_eq!(decode_string(&data, 6), Ok(("ok".to_string(), 9)));
    assert_eq!(decode_guid(&data, 9), Ok((vec![7], 14)));
    assert_eq!(decode_guid(&data, 2), Err(DecodeError::BadLength));
}

#[test]
fn length_prefix_values() {
    assert_eq!(decode_varint(&[0], 0), Ok((0, 1)));
    assert_eq!(decode_varint(&[0x7f], 0), Ok((127, 1)));
    assert_eq!(decode_varint(&[0x80, 0x01], 0), Ok((128, 2)));
    assert_eq!(decode_varint(&[0xff, 0xff, 0xff, 0xff, 0x7f], 0), Ok((0x7_ffff_ffff, 5)));
    assert_eq!(decode_varint(&[0xff, 0xff, 0xff, 0xff, 0xff, 0x01], 0), Ok((0xf_ffff_ffff, 6)));
    assert_eq!(decode_varint(&[0x80, 0x80, 0x80, 0x80, 0x80, 0x00], 0), Ok((0, 6)));
    assert_eq!(
        decode_varint(&[0xff, 0xff, 0xff, 0xff, 0xff, 0xff, 0xff, 0xff, 0xff, 0x01], 0),
        Ok((u64::MAX, 10))
    );
    assert_eq!(
        decode_varint(&[0xff, 0xff, 0xff, 0xff, 0xff, 0xff, 0xff, 0xff, 0xff, 0x02], 0),
        Err(DecodeError::BadLength)
    );
    assert_eq!(
        decode_varint(&[0x80, 0x80, 0x80, 0x80, 0x80, 0x80, 0x80, 0x80, 0x80, 0x80, 0x01], 0),
        Err(DecodeError::BadLength)
    );
    assert_eq!(
        decode_varint(&[0x85, 0x80, 0x80, 0x80, 0x80, 0x80, 0x80, 0x80, 0x80, 0x80, 0x80, 0x00], 0),
        Ok((5, 12))
    );
    assert_eq!(decode_varint(&[9, 0x81, 0x01, 7], 1), Ok((129, 3)));
    assert_eq!(decode_varint(&[0xff, 0xff], 0), Err(DecodeError::Truncated));
    assert_eq!(decode_varint(&[], 0), Err(DecodeError::Truncated));
}

#[test]
fn client_list_at_a_position() {
    let data = [0xaa, 1, 0, 0, 0, 2, 0, 0, 0, 5, 6, 1, b'z', 0xbb];
    let origin = Endpoint::V4 { ip: 3, port: 4 };
    let (clients, next) = decode_clients(&data, 1, origin).unwrap();
    assert_eq!(next, 13);
    assert_eq!(
        clients,
        vec![Client {
            guid: vec![5, 6],
            name: "z".to_string(),
            connection: origin,
            is_loading: false,
            wants_lobby: false,
            counter: 0,
        }]
    );
}
