//! The read side of the wire format: one received datagram, its preamble
//! taken apart, and a cursor over its payload.
use crate::data::{
    client_views, player_views, Client, ClientView, Endpoint, Player, PlayerPosition,
    PlayerPositionView, PlayerView, Settings,
};
use crate::errors::DecodeError;
use crate::game::{CtrlType, GameHeader};
use crate::headers::{preamble_bits, preamble_sequence, Header, CAPACITY, PREAMBLE};
use crate::text::{chars_of, decimal, push_decimal, string_of};
use crate::wire::{
    decode_bool, decode_byte, decode_bytes, decode_clients, decode_ctrl_type, decode_game_header,
    decode_guid, decode_i32, decode_player_pos, decode_players, decode_settings, decode_string,
    decode_u32, decode_vec3, decode_vec4, parse_bool, parse_byte, parse_bytes, parse_clients,
    parse_ctrl_type, parse_game_header, parse_guid, parse_i32, parse_player_pos, parse_players,
    parse_settings, parse_string, parse_u32, parse_vec3, parse_vec4, Parsed,
};
use vstd::prelude::*;
use vstd::slice::{slice_subrange, slice_to_vec};

verus! {

/// One received datagram. `data` is the payload, without the preamble; the
/// cursor starts at its first byte.
#[derive(Debug, PartialEq, Eq)]
pub struct Stream {
    /// The class of the datagram, or why its code is not accepted.
    pub header: Result<Header, DecodeError>,
    pub header_byte: u8,
    pub sequence: u16,
    /// The length of the payload in bits, as the preamble declares it.
    pub size: u16,
    pub origin: Endpoint,
    pub data: Vec<u8>,
    /// The position in `data` of the next byte to read.
    pub ptr: usize,
}

impl Stream {
    /// The position of the next byte to read.
    pub open spec fn cursor(&self) -> int {
        self.ptr as int
    }

    /// Whether this stream holds the same datagram as `before`.
    pub open spec fn same_datagram(&self, before: &Stream) -> bool {
        &&& self.header == before.header
        &&& self.header_byte == before.header_byte
        &&& self.sequence == before.sequence
        &&& self.size == before.size
        &&& self.origin == before.origin
        &&& self.data == before.data
    }

    /// Whether this stream is `before` after a read that found `parsed`:
    /// the same datagram, the cursor behind the value that was read, or
    /// where it was if there was none.
    pub open spec fn advanced<T>(&self, before: &Stream, parsed: Parsed<T>) -> bool {
        &&& self.same_datagram(before)
        &&& self.cursor() == match parsed {
            Ok((_, next)) => next,
            Err(_) => before.cursor(),
        }
    }

    /// Takes a datagram of `size` bytes apart.
    /// A datagram shorter than its preamble or longer than the region is rejected.
    pub fn new(stream: &[u8; 1500], size: usize, socket: Endpoint) -> (result: Result<
        Stream,
        DecodeError,
    >)
        ensures
            size < PREAMBLE ==> result == Err::<Stream, DecodeError>(DecodeError::Truncated),
            size > CAPACITY ==> result == Err::<Stream, DecodeError>(DecodeError::Oversized),
            PREAMBLE <= size <= CAPACITY ==> result is Ok,
            result matches Ok(s) ==> {
                &&& s.header == Header::spec_classify(stream@[0])
                &&& s.header_byte == stream@[0]
                &&& s.sequence == preamble_sequence(stream@)
                &&& s.size == preamble_bits(stream@)
                &&& s.origin == socket
                &&& s.data@ == stream@.subrange(PREAMBLE as int, size as int)
                &&& s.cursor() == 0
            },
    {
        if size < PREAMBLE {
            return Err(DecodeError::Truncated);
        }
        if size > CAPACITY {
            return Err(DecodeError::Oversized);
        }
        let sequence: u16 = (stream[1] / 2) as u16 + (stream[2] as u16) * 128;
        let bits: u16 = stream[3] as u16 + (stream[4] as u16) * 256;
        Ok(
            Stream {
                header: Header::classify(stream[0]),
                header_byte: stream[0],
                sequence,
                size: bits,
                origin: socket,
                data: slice_to_vec(slice_subrange(stream.as_slice(), PREAMBLE, size)),
                ptr: 0,
            },
        )
    }

    /// A copy of `stream` with the cursor back at the start of the payload.
    pub fn from(stream: &Stream) -> (copy: Stream)
        ensures
            copy.header == stream.header,
            copy.header_byte == stream.header_byte,
            copy.sequence == stream.sequence,
            copy.size == stream.size,
            copy.origin == stream.origin,
            copy.data@ == stream.data@,
            copy.cursor() == 0,
    {
        Stream {
            header: stream.header,
            header_byte: stream.header_byte,
            sequence: stream.sequence,
            size: stream.size,
            origin: stream.origin,
            data: slice_to_vec(stream.data.as_slice()),
            ptr: 0,
        }
    }

    /// Reads one byte.
    pub fn read_byte(&mut self) -> (result: Result<u8, DecodeError>)
        ensures
            final(self).advanced(old(self), parse_byte(old(self).data@, old(self).cursor())),
            match result {
                Ok(v) => parse_byte(old(self).data@, old(self).cursor()) matches Ok((w, _)) && w
                    == v,
                Err(e) => parse_byte(old(self).data@, old(self).cursor()) == Err::<
                    (u8, int),
                    DecodeError,
                >(e),
            },
    {
        match decode_byte(self.data.as_slice(), self.ptr) {
            Ok((v, next)) => {
                self.ptr = next;
                Ok(v)
            },
            Err(e) => Err(e),
        }
    }

    /// Reads a run of bytes behind a one-byte count.
    pub fn read_bytes(&mut self) -> (result: Result<Vec<u8>, DecodeError>)
        ensures
            final(self).advanced(old(self), parse_bytes(old(self).data@, old(self).cursor())),
            match result {
                Ok(v) => parse_bytes(old(self).data@, old(self).cursor()) matches Ok((w, _)) && w
                    == v@,
                Err(e) => parse_bytes(old(self).data@, old(self).cursor()) == Err::<
                    (Seq<u8>, int),
                    DecodeError,
                >(e),
            },
    {
        match decode_bytes(self.data.as_slice(), self.ptr) {
            Ok((v, next)) => {
                self.ptr = next;
                Ok(v)
            },
            Err(e) => Err(e),
        }
    }

    /// Reads a string: a length prefix, then that many bytes of UTF-8.
    pub fn read_string(&mut self) -> (result: Result<String, DecodeError>)
        ensures
            final(self).advanced(old(self), parse_string(old(self).data@, old(self).cursor())),
            match result {
                Ok(v) => parse_string(old(self).data@, old(self).cursor()) matches Ok((w, _)) && w
                    == v@,
                Err(e) => parse_string(old(self).data@, old(self).cursor()) == Err::<
                    (Seq<char>, int),
                    DecodeError,
                >(e),
            },
    {
        match decode_string(self.data.as_slice(), self.ptr) {
            Ok((v, next)) => {
                self.ptr = next;
                Ok(v)
            },
            Err(e) => Err(e),
        }
    }

    /// Reads a signed 32-bit integer.
    pub fn read_i32(&mut self) -> (result: Result<i32, DecodeError>)
        ensures
            final(self).advanced(old(self), parse_i32(old(self).data@, old(self).cursor())),
            match result {
                Ok(v) => parse_i32(old(self).data@, old(self).cursor()) matches Ok((w, _)) && w
                    == v,
                Err(e) => parse_i32(old(self).data@, old(self).cursor()) == Err::<
                    (i32, int),
                    DecodeError,
                >(e),
            },
    {
        match decode_i32(self.data.as_slice(), self.ptr) {
            Ok((v, next)) => {
                self.ptr = next;
                Ok(v)
            },
            Err(e) => Err(e),
        }
    }

    /// Reads a single-precision number, as its IEEE-754 bit pattern.
    pub fn read_f32(&mut self) -> (result: Result<u32, DecodeError>)
        ensures
            final(self).advanced(old(self), parse_u32(old(self).data@, old(self).cursor())),
            match result {
                Ok(v) => parse_u32(old(self).data@, old(self).cursor()) matches Ok((w, _)) && w
                    == v,
                Err(e) => parse_u32(old(self).data@, old(self).cursor()) == Err::<
                    (u32, int),
                    DecodeError,
                >(e),
            },
    {
        match decode_u32(self.data.as_slice(), self.ptr) {
            Ok((v, next)) => {
                self.ptr = next;
                Ok(v)
            },
            Err(e) => Err(e),
        }
    }

    /// Reads a flag: one byte, `true` unless it is 0.
    pub fn read_bool(&mut self) -> (result: Result<bool, DecodeError>)
        ensures
            final(self).advanced(old(self), parse_bool(old(self).data@, old(self).cursor())),
            match result {
                Ok(v) => parse_bool(old(self).data@, old(self).cursor()) matches Ok((w, _)) && w
                    == v,
                Err(e) => parse_bool(old(self).data@, old(self).cursor()) == Err::<
                    (bool, int),
                    DecodeError,
                >(e),
            },
    {
        match decode_bool(self.data.as_slice(), self.ptr) {
            Ok((v, next)) => {
                self.ptr = next;
                Ok(v)
            },
            Err(e) => Err(e),
        }
    }

    /// Reads an identity: a 32-bit length, then that many bytes.
    pub fn read_guid(&mut self) -> (result: Result<Vec<u8>, DecodeError>)
        ensures
            final(self).advanced(old(self), parse_guid(old(self).data@, old(self).cursor())),
            match result {
                Ok(v) => parse_guid(old(self).data@, old(self).cursor()) matches Ok((w, _)) && w
                    == v@,
                Err(e) => parse_guid(old(self).data@, old(self).cursor()) == Err::<
                    (Seq<u8>, int),
                    DecodeError,
                >(e),
            },
    {
        match decode_guid(self.data.as_slice(), self.ptr) {
            Ok((v, next)) => {
                self.ptr = next;
                Ok(v)
            },
            Err(e) => Err(e),
        }
    }

    /// Reads the byte that announces a game frame.
    pub fn read_game_header(&mut self) -> (result: Result<GameHeader, DecodeError>)
        ensures
            final(self).advanced(
                old(self),
                parse_game_header(old(self).data@, old(self).cursor()),
            ),
            match result {
                Ok(v) => parse_game_header(old(self).data@, old(self).cursor()) matches Ok((w, _))
                    && w == v,
                Err(e) => parse_game_header(old(self).data@, old(self).cursor()) == Err::<
                    (GameHeader, int),
                    DecodeError,
                >(e),
            },
    {
        match decode_game_header(self.data.as_slice(), self.ptr) {
            Ok((v, next)) => {
                self.ptr = next;
                Ok(v)
            },
            Err(e) => Err(e),
        }
    }

    /// Reads three single-precision numbers, as bit patterns.
    pub fn read_vec3(&mut self) -> (result: Result<[u32; 3], DecodeError>)
        ensures
            final(self).advanced(old(self), parse_vec3(old(self).data@, old(self).cursor())),
            match result {
                Ok(v) => parse_vec3(old(self).data@, old(self).cursor()) matches Ok((w, _)) && w
                    == v@,
                Err(e) => parse_vec3(old(self).data@, old(self).cursor()) == Err::<
                    (Seq<u32>, int),
                    DecodeError,
                >(e),
            },
    {
        match decode_vec3(self.data.as_slice(), self.ptr) {
            Ok((v, next)) => {
                self.ptr = next;
                Ok(v)
            },
            Err(e) => Err(e),
        }
    }

    /// Reads four single-precision numbers, as bit patterns.
    pub fn read_vec4(&mut self) -> (result: Result<[u32; 4], DecodeError>)
        ensures
            final(self).advanced(old(self), parse_vec4(old(self).data@, old(self).cursor())),
            match result {
                Ok(v) => parse_vec4(old(self).data@, old(self).cursor()) matches Ok((w, _)) && w
                    == v@,
                Err(e) => parse_vec4(old(self).data@, old(self).cursor()) == Err::<
                    (Seq<u32>, int),
                    DecodeError,
                >(e),
            },
    {
        match decode_vec4(self.data.as_slice(), self.ptr) {
            Ok((v, next)) => {
                self.ptr = next;
                Ok(v)
            },
            Err(e) => Err(e),
        }
    }

    /// Reads a client list. Every client of the list is taken to be reached
    /// at the sender of the datagram, with its sequence counter at 0.
    pub fn read_clients(&mut self) -> (result: Result<Vec<Client>, DecodeError>)
        ensures
            final(self).advanced(
                old(self),
                parse_clients(old(self).data@, old(self).cursor(), old(self).origin),
            ),
            match result {
                Ok(v) => parse_clients(
                    old(self).data@,
                    old(self).cursor(),
                    old(self).origin,
                ) matches Ok((w, _)) && w == client_views(v@),
                Err(e) => parse_clients(old(self).data@, old(self).cursor(), old(self).origin)
                    == Err::<(Seq<ClientView>, int), DecodeError>(e),
            },
    {
        match decode_clients(self.data.as_slice(), self.ptr, self.origin) {
            Ok((v, next)) => {
                self.ptr = next;
                Ok(v)
            },
            Err(e) => Err(e),
        }
    }

    /// Reads a player list. Every player of the list is neither racing nor
    /// timed out.
    pub fn read_players(&mut self) -> (result: Result<Vec<Player>, DecodeError>)
        ensures
            final(self).advanced(old(self), parse_players(old(self).data@, old(self).cursor())),
            match result {
                Ok(v) => parse_players(old(self).data@, old(self).cursor()) matches Ok((w, _))
                    && w == player_views(v@),
                Err(e) => parse_players(old(self).data@, old(self).cursor()) == Err::<
                    (Seq<PlayerView>, int),
                    DecodeError,
                >(e),
            },
    {
        match decode_players(self.data.as_slice(), self.ptr) {
            Ok((v, next)) => {
                self.ptr = next;
                Ok(v)
            },
            Err(e) => Err(e),
        }
    }

    /// Reads the byte that names a controller.
    pub fn read_ctrl_type(&mut self) -> (result: Result<CtrlType, DecodeError>)
        ensures
            final(self).advanced(old(self), parse_ctrl_type(old(self).data@, old(self).cursor())),
            match result {
                Ok(v) => parse_ctrl_type(old(self).data@, old(self).cursor()) matches Ok((w, _))
                    && w == v,
                Err(e) => parse_ctrl_type(old(self).data@, old(self).cursor()) == Err::<
                    (CtrlType, int),
                    DecodeError,
                >(e),
            },
    {
        match decode_ctrl_type(self.data.as_slice(), self.ptr) {
            Ok((v, next)) => {
                self.ptr = next;
                Ok(v)
            },
            Err(e) => Err(e),
        }
    }

    /// Reads a movement record.
    pub fn read_player_pos(&mut self) -> (result: Result<PlayerPosition, DecodeError>)
        ensures
            final(self).advanced(
                old(self),
                parse_player_pos(old(self).data@, old(self).cursor()),
            ),
            match result {
                Ok(v) => parse_player_pos(old(self).data@, old(self).cursor()) matches Ok((w, _))
                    && w == v@,
                Err(e) => parse_player_pos(old(self).data@, old(self).cursor()) == Err::<
                    (PlayerPositionView, int),
                    DecodeError,
                >(e),
            },
    {
        match decode_player_pos(self.data.as_slice(), self.ptr) {
            Ok((v, next)) => {
                self.ptr = next;
                Ok(v)
            },
            Err(e) => Err(e),
        }
    }

    /// Reads match settings.
    pub fn read_settings(&mut self) -> (result: Result<Settings, DecodeError>)
        ensures
            final(self).advanced(old(self), parse_settings(old(self).data@, old(self).cursor())),
            match result {
                Ok(v) => parse_settings(old(self).data@, old(self).cursor()) matches Ok((w, _))
                    && w == v,
                Err(e) => parse_settings(old(self).data@, old(self).cursor()) == Err::<
                    (Settings, int),
                    DecodeError,
                >(e),
            },
    {
        match decode_settings(self.data.as_slice(), self.ptr) {
            Ok((v, next)) => {
                self.ptr = next;
                Ok(v)
            },
            Err(e) => Err(e),
        }
    }

    /// A line that names the class of the datagram, for a log.
    pub fn describe(&self) -> (line: String)
        ensures
            line@ == class_label(self.header_byte),
    {
        let code = self.header_byte;
        if 67 <= code && code <= 98 {
            let mut chars = chars_of("User Reliable Ordered ");
            push_decimal(&mut chars, code);
            return string_of(&chars);
        }
        let label: &'static str = if code == 0 {
            "Should not happen (unconnected)"
        } else if code == 1 {
            "User Unreliable (disabled)"
        } else if code <= 33 {
            "User Sequenced (disabled)"
        } else if code == 34 {
            "User Reliable Unordered (disabled)"
        } else if code <= 66 {
            "User Reliable Sequenced (disabled)"
        } else if code <= 127 {
            "Unused 1-28"
        } else if code == 128 {
            "Library error (disabled)"
        } else if code == 129 {
            "Ping"
        } else if code == 130 {
            "Pong (disabled)"
        } else if code == 131 {
            "Connect"
        } else if code == 132 {
            "Connect Response (disabled)"
        } else if code == 133 {
            "Connection Established"
        } else if code == 134 {
            "Ackwoledge"
        } else if code == 135 {
            "Disconnect (disabled)"
        } else if code == 136 {
            "Discovery (disabled)"
        } else if code == 137 {
            "Discovery Response (disabled)"
        } else if code == 138 {
            "Nat Punch Message (disabled)"
        } else if code == 139 {
            "Nat Intoduction (disabled)"
        } else if code == 140 {
            "Expand MTU Request (disabled)"
        } else if code == 141 {
            "Expand MTU Succsess (disabled)"
        } else if code == 142 {
            "Nat Introduction Confirm Request (disabled)"
        } else if code == 143 {
            "Nat Introduction Confirmed (disabled)"
        } else {
            "Out of Bounds"
        };
        label.to_owned()
    }
}

/// The line that names the message class with code `code`.
pub open spec fn class_label(code: u8) -> Seq<char> {
    if code == 0 {
        "Should not happen (unconnected)"@
    } else if code == 1 {
        "User Unreliable (disabled)"@
    } else if code <= 33 {
        "User Sequenced (disabled)"@
    } else if code == 34 {
        "User Reliable Unordered (disabled)"@
    } else if code <= 66 {
        "User Reliable Sequenced (disabled)"@
    } else if code <= 98 {
        "User Reliable Ordered "@ + decimal(code as nat)
    } else if code <= 127 {
        "Unused 1-28"@
    } else if code == 128 {
        "Library error (disabled)"@
    } else if code == 129 {
        "Ping"@
    } else if code == 130 {
        "Pong (disabled)"@
    } else if code == 131 {
        "Connect"@
    } else if code == 132 {
        "Connect Response (disabled)"@
    } else if code == 133 {
        "Connection Established"@
    } else if code == 134 {
        "Ackwoledge"@
    } else if code == 135 {
        "Disconnect (disabled)"@
    } else if code == 136 {
        "Discovery (disabled)"@
    } else if code == 137 {
        "Discovery Response (disabled)"@
    } else if code == 138 {
        "Nat Punch Message (disabled)"@
    } else if code == 139 {
        "Nat Intoduction (disabled)"@
    } else if code == 140 {
        "Expand MTU Request (disabled)"@
    } else if code == 141 {
        "Expand MTU Succsess (disabled)"@
    } else if code == 142 {
        "Nat Introduction Confirm Request (disabled)"@
    } else if code == 143 {
        "Nat Introduction Confirmed (disabled)"@
    } else {
        "Out of Bounds"@
    }
}

impl Default for Stream {
    /// An empty datagram of the class that is never transmitted.
    fn default() -> (stream: Stream)
        ensures
            stream.header == Ok::<Header, DecodeError>(Header::Unconnected),
            stream.header_byte == 0,
            stream.sequence == 0,
            stream.size == 0,
            stream.origin == (Endpoint::V4 { ip: 0, port: 0 }),
            stream.data@ == Seq::<u8>::empty(),
            stream.cursor() == 0,
    {
        Stream {
            header: Ok(Header::Unconnected),
            header_byte: 0,
            sequence: 0,
            size: 0,
            origin: Endpoint::V4 { ip: 0, port: 0 },
            data: Vec::new(),
            ptr: 0,
        }
    }
}

} // verus!
