use sanicball_relay::buffer::Buffer;
use sanicball_relay::data::Endpoint;
use sanicball_relay::errors::DecodeError;
use sanicball_relay::headers::Header;
use sanicball_relay::server::restamp;
use sanicball_relay::stream::Stream;
use sanicball_relay::to_byte;

fn origin() -> Endpoint {
    Endpoint::V6 { ip: 1, port: 7878, flowinfo: 0, scope_id: 0 }
}

fn open(bytes: &[u8]) -> Stream {
    let mut region = [0u8; 1500];
    region[..bytes.len()].copy_from_slice(bytes);
    Stream::new(&region, bytes.len(), origin()).unwrap()
}

#[test]
fn to_byte_keeps_low_byte() {
    assert_eq!(to_byte(0), 0);
    assert_eq!(to_byte(255), 255);
    assert_eq!(to_byte(256), 0);
    assert_eq!(to_byte(0x1234), 0x34);
    assert_eq!(to_byte(usize::MAX), 255);
}

#[test]
fn preamble_layout() {
    let mut buffer = Buffer::default();
    buffer.write_i32(&1);
    buffer.write_byte(9);
    buffer.set_sequence(300);
    buffer.write_header(Header::UserReliableOrdered { channel: 0 });
    let bytes = buffer.message();
    assert_eq!(&bytes[..5], &[67, ((300usize << 1) & 0xff) as u8, (300usize >> 7) as u8, 40, 0]);
    assert_eq!(&bytes[5..], &[1, 0, 0, 0, 9]);
}

#[test]
fn preamble_counts_payload_bits() {
    for n in [0usize, 1, 31, 32, 33, 255, 1000, 1495] {
        let mut buffer = Buffer::default();
        for _ in 0..n {
            buffer.write_byte(0x5a);
        }
        buffer.write_header(Header::Ping);
        let bytes = buffer.message();
        assert_eq!(bytes.len(), n + 5);
        let stream = open(&bytes);
        assert_eq!(stream.size as usize, 8 * n);
        assert_eq!(stream.data.len(), n);
        assert_eq!(stream.header_byte, 129);
        assert_eq!(stream.header, Ok(Header::Ping));
        assert_eq!(stream.origin, origin());
    }
}

#[test]
fn sequence_survives_up_to_fifteen_bits() {
    for seq in [0usize, 1, 2, 127, 128, 129, 255, 256, 12345, 32766, 32767] {
        let mut buffer = Buffer::default();
        buffer.write_byte(1);
        buffer.write_header(Header::UserUnreliable);
        buffer.seq(seq);
        let stream = open(&buffer.message());
        assert_eq!(stream.sequence as usize, seq);
        assert_eq!(stream.size, 8);
    }
}

#[test]
fn sequence_wraps_above_fifteen_bits() {
    for (seq, read) in [(32768usize, 0u16), (32769, 1), (65535, 32767), (65536, 0), (usize::MAX, 32767)]
    {
        let mut buffer = Buffer::default();
        buffer.write_header(Header::UserUnreliable);
        buffer.seq(seq);
        assert_eq!(open(&buffer.message()).sequence, read);
    }
}

#[test]
fn last_stamp_wins_and_touches_two_bytes() {
    let mut buffer = Buffer::default();
    buffer.write_string("payload");
    buffer.write_header(Header::UserReliableOrdered { channel: 3 });
    let first = buffer.message();
    buffer.seq(77);
    buffer.seq(4242);
    let second = buffer.message();
    assert_eq!(first.len(), second.len());
    for i in 0..first.len() {
        if i != 1 && i != 2 {
            assert_eq!(first[i], second[i]);
        }
    }
    let stream = open(&second);
    assert_eq!(stream.sequence, 4242);
    assert_eq!(stream.header, Ok(Header::UserReliableOrdered { channel: 3 }));
    assert_eq!(stream.header_byte, 70);
}

#[test]
fn restamp_on_a_datagram() {
    let mut buffer = Buffer::default();
    buffer.write_byte(5);
    buffer.write_header(Header::UserReliableOrdered { channel: 0 });
    let mut datagram = buffer.message();
    let before = datagram.clone();
    restamp(&mut datagram, 129);
    assert_eq!(datagram[1], 2);
    assert_eq!(datagram[2], 1);
    assert_eq!(datagram[0], before[0]);
    assert_eq!(&datagram[3..], &before[3..]);
    buffer.seq(129);
    assert_eq!(datagram, buffer.message());
    let mut tiny = vec![1u8, 2];
    restamp(&mut tiny, 9);
    assert_eq!(tiny, vec![1, 2]);
}

#[test]
fn stream_rejects_bad_sizes() {
    let region = [0u8; 1500];
    assert_eq!(Stream::new(&region, 0, origin()), Err(DecodeError::Truncated));
    assert_eq!(Stream::new(&region, 4, origin()), Err(DecodeError::Truncated));
    assert_eq!(Stream::new(&region, 1501, origin()), Err(DecodeError::Oversized));
    assert!(Stream::new(&region, 5, origin()).is_ok());
    assert_eq!(Stream::new(&region, 1500, origin()).unwrap().data.len(), 1495);
}

#[test]
fn classification_table() {
    for code in 0..=255u8 {
        let expected = match code {
            1 => Ok(Header::UserUnreliable),
            67..=98 => Ok(Header::UserReliableOrdered { channel: code - 67 }),
            129 => Ok(Header::Ping),
            131 => Ok(Header::Connect),
            133 => Ok(Header::ConnectionEstablished),
            134 => Ok(Header::Acknowledge),
            2..=66 | 128 | 130 | 132 | 135..=143 => Err(DecodeError::DisabledHeader),
            _ => Err(DecodeError::InvalidHeader),
        };
        assert_eq!(Header::classify(code), expected);
        if let Ok(header) = expected {
            assert_eq!(header.code(), code);
        }
    }
    assert_eq!(Header::Unconnected.code(), 0);
    assert_eq!(Header::Pong.code(), 130);
    assert_eq!(Header::ConnectResponse.code(), 132);
}

#[test]
fn class_labels() {
    let label = |code: u8| {
        let mut region = [0u8; 1500];
        region[0] = code;
        Stream::new(&region, 5, origin()).unwrap().describe()
    };
    assert_eq!(label(0), "Should not happen (unconnected)");
    assert_eq!(label(1), "User Unreliable (disabled)");
    assert_eq!(label(2), "User Sequenced (disabled)");
    assert_eq!(label(33), "User Sequenced (disabled)");
    assert_eq!(label(34), "User Reliable Unordered (disabled)");
    assert_eq!(label(35), "User Reliable Sequenced (disabled)");
    assert_eq!(label(66), "User Reliable Sequenced (disabled)");
    assert_eq!(label(67), "User Reliable Ordered 67");
    assert_eq!(label(98), "User Reliable Ordered 98");
    assert_eq!(label(99), "Unused 1-28");
    assert_eq!(label(127), "Unused 1-28");
    assert_eq!(label(128), "Library error (disabled)");
    assert_eq!(label(129), "Ping");
    assert_eq!(label(130), "Pong (disabled)");
    assert_eq!(label(131), "Connect");
    assert_eq!(label(132), "Connect Response (disabled)");
    assert_eq!(label(133), "Connection Established");
    assert_eq!(label(134), "Ackwoledge");
    assert_eq!(label(135), "Disconnect (disabled)");
    assert_eq!(label(143), "Nat Introduction Confirmed (disabled)");
    assert_eq!(label(144), "Out of Bounds");
    assert_eq!(label(255), "Out of Bounds");
}

#[test]
fn default_stream_is_empty() {
    let stream = Stream::default();
    assert_eq!(stream.header, Ok(Header::Unconnected));
    assert_eq!(stream.header_byte, 0);
    assert_eq!(stream.sequence, 0);
    assert_eq!(stream.size, 0);
    assert!(stream.data.is_empty());
    assert_eq!(stream.ptr, 0);
}
