//! The message-class code that opens every datagram, and the five-byte
//! preamble that it belongs to.
use crate::errors::DecodeError;
use vstd::prelude::*;

verus! {

/// The message classes that the relay speaks.
#[derive(Debug, Clone, Copy, PartialEq, Eq, Structural)]
pub enum Header {
    /// Stands for "no reply"; never transmitted.
    Unconnected,
    UserUnreliable,
    /// Reliable ordered user data on one of 32 channels.
    UserReliableOrdered { channel: u8 },
    Ping,
    Pong,
    Connect,
    ConnectResponse,
    ConnectionEstablished,
    Acknowledge,
}

impl Header {
    /// A reliable-ordered header names one of the channels 0 to 31.
    pub open spec fn wf(self) -> bool {
        self matches Header::UserReliableOrdered { channel } ==> channel < 32
    }

    /// The code of this message class.
    pub open spec fn spec_code(self) -> u8 {
        match self {
            Header::Unconnected => 0u8,
            Header::UserUnreliable => 1u8,
            Header::UserReliableOrdered { channel } => (67 + channel) as u8,
            Header::Ping => 129u8,
            Header::Pong => 130u8,
            Header::Connect => 131u8,
            Header::ConnectResponse => 132u8,
            Header::ConnectionEstablished => 133u8,
            Header::Acknowledge => 134u8,
        }
    }

    /// The class that an inbound datagram with first byte `code` belongs to.
    /// Accepted are unreliable user data (1), reliable ordered user data
    /// (67 to 98), ping (129), connect (131), connection established (133)
    /// and acknowledge (134). The classes that only the server sends (130 and
    /// 132) and the transport features that are switched off (2 to 66, 128,
    /// 135 to 143) are disabled; all other codes are invalid.
    pub open spec fn spec_classify(code: u8) -> Result<Header, DecodeError> {
        if code == 1 {
            Ok(Header::UserUnreliable)
        } else if 67 <= code <= 98 {
            Ok(Header::UserReliableOrdered { channel: (code - 67) as u8 })
        } else if code == 129 {
            Ok(Header::Ping)
        } else if code == 131 {
            Ok(Header::Connect)
        } else if code == 133 {
            Ok(Header::ConnectionEstablished)
        } else if code == 134 {
            Ok(Header::Acknowledge)
        } else if (2 <= code <= 66) || code == 128 || code == 130 || code == 132 || (135 <= code
            <= 143) {
            Err(DecodeError::DisabledHeader)
        } else {
            Err(DecodeError::InvalidHeader)
        }
    }

    /// The code of this message class.
    pub fn code(self) -> (byte: u8)
        requires
            self.wf(),
        ensures
            byte == self.spec_code(),
    {
        match self {
            Header::Unconnected => 0,
            Header::UserUnreliable => 1,
            Header::UserReliableOrdered { channel } => 67 + channel,
            Header::Ping => 129,
            Header::Pong => 130,
            Header::Connect => 131,
            Header::ConnectResponse => 132,
            Header::ConnectionEstablished => 133,
            Header::Acknowledge => 134,
        }
    }

    /// Classifies the first byte of an inbound datagram.
    pub fn classify(code: u8) -> (result: Result<Header, DecodeError>)
        ensures
            result == Header::spec_classify(code),
            result matches Ok(header) ==> header.wf() && header.spec_code() == code,
    {
        if code == 1 {
            Ok(Header::UserUnreliable)
        } else if 67 <= code && code <= 98 {
            Ok(Header::UserReliableOrdered { channel: code - 67 })
        } else if code == 129 {
            Ok(Header::Ping)
        } else if code == 131 {
            Ok(Header::Connect)
        } else if code == 133 {
            Ok(Header::ConnectionEstablished)
        } else if code == 134 {
            Ok(Header::Acknowledge)
        } else if (2 <= code && code <= 66) || code == 128 || code == 130 || code == 132 || (135
            <= code && code <= 143) {
            Err(DecodeError::DisabledHeader)
        } else {
            Err(DecodeError::InvalidHeader)
        }
    }
}

/// The number of bytes of the preamble.
pub const PREAMBLE: usize = 5;

/// The largest datagram, preamble included.
pub const CAPACITY: usize = 1500;

/// The two bytes that carry sequence number `sequence`: its low seven bits
/// shifted up by one, then the eight bits above them.
pub open spec fn sequence_bytes(sequence: int) -> Seq<u8> {
    seq![(sequence % 128 * 2) as u8, (sequence / 128 % 256) as u8]
}

/// The preamble of a datagram of class `code` with sequence number
/// `sequence` and `payload_len` bytes of payload. The length field counts
/// bits.
pub open spec fn preamble(code: u8, sequence: int, payload_len: int) -> Seq<u8> {
    seq![code] + sequence_bytes(sequence) + seq![
        (payload_len * 8 % 256) as u8,
        (payload_len * 8 / 256 % 256) as u8,
    ]
}

/// The sequence number that a preamble carries.
pub open spec fn preamble_sequence(bytes: Seq<u8>) -> int {
    bytes[1] as int / 2 + bytes[2] as int * 128
}

/// The payload length in bits that a preamble carries.
pub open spec fn preamble_bits(bytes: Seq<u8>) -> int {
    bytes[3] as int + bytes[4] as int * 256
}

/// `datagram` with the sequence number in its preamble replaced by `sequence`.
pub open spec fn restamped(datagram: Seq<u8>, sequence: int) -> Seq<u8> {
    datagram.update(1, sequence_bytes(sequence)[0]).update(2, sequence_bytes(sequence)[1])
}

/// The preamble of a datagram that fits the receive region carries eight
/// times the payload's length in bytes and the low fifteen bits of the
/// sequence number that was stamped: the number itself when it is at most 32767.
pub proof fn lemma_preamble_roundtrip(code: u8, sequence: int, payload_len: int)
    requires
        0 <= sequence,
        0 <= payload_len <= CAPACITY - PREAMBLE,
    ensures
        preamble(code, sequence, payload_len).len() == 5,
        preamble(code, sequence, payload_len)[0] == code,
        preamble_bits(preamble(code, sequence, payload_len)) == 8 * payload_len,
        preamble_sequence(preamble(code, sequence, payload_len)) == sequence % 32768,
        sequence <= 32767 ==> preamble_sequence(preamble(code, sequence, payload_len)) == sequence,
{
}

/// Stamping a new sequence number on a datagram changes its second and
/// third byte and nothing else; the number read back is the one stamped last.
pub proof fn lemma_restamp(datagram: Seq<u8>, sequence: int)
    requires
        0 <= sequence,
        datagram.len() >= 5,
    ensures
        restamped(datagram, sequence).len() == datagram.len(),
        forall|i: int|
            0 <= i < datagram.len() && i != 1 && i != 2 ==> restamped(datagram, sequence)[i]
                == datagram[i],
        preamble_sequence(restamped(datagram, sequence)) == sequence % 32768,
        preamble_bits(restamped(datagram, sequence)) == preamble_bits(datagram),
{
}

/// Restamping a framed payload gives the datagram that framing it with the
/// new sequence number would have given.
pub proof fn lemma_restamp_frame(code: u8, first: int, second: int, payload: Seq<u8>)
    ensures
        restamped(preamble(code, first, payload.len() as int) + payload, second) == preamble(
            code,
            second,
            payload.len() as int,
        ) + payload,
{
    assert(restamped(preamble(code, first, payload.len() as int) + payload, second) =~= preamble(
        code,
        second,
        payload.len() as int,
    ) + payload);
}

} // verus!
