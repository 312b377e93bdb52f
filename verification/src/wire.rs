//! The layout of every field on the wire, as functions on byte sequences:
//! what an encoder appends, what a decoder reads at a position, and the
//! laws that tie the two together. All integers are little-endian.
use crate::data::{
    client_views, player_views, Client, ClientView, Endpoint, MatchConfig, Player,
    PlayerPosition, PlayerPositionView, PlayerView, Settings, Stopwatch,
};
use crate::errors::DecodeError;
use crate::game::{CtrlType, GameHeader};
use vstd::prelude::*;
use vstd::slice::{slice_subrange, slice_to_vec};
use vstd::utf8::{decode_utf8, encode_utf8, valid_utf8};

verus! {

/// The four bytes of a 32-bit word, lowest first.
pub open spec fn le_bytes(word: u32) -> Seq<u8> {
    seq![
        (word % 256) as u8,
        (word / 256 % 256) as u8,
        (word / 65536 % 256) as u8,
        (word / 16777216) as u8,
    ]
}

/// The 32-bit word whose bytes, lowest first, are `b0` to `b3`.
pub open spec fn le_word(b0: u8, b1: u8, b2: u8, b3: u8) -> u32 {
    (b0 as int + 256 * b1 as int + 65536 * b2 as int + 16777216 * b3 as int) as u32
}

/// The two's-complement bit pattern of a signed 32-bit integer.
pub open spec fn i32_bits(value: i32) -> u32 {
    if value >= 0 {
        value as u32
    } else {
        (value + 0x1_0000_0000) as u32
    }
}

/// The signed 32-bit integer with two's-complement bit pattern `bits`.
pub open spec fn bits_i32(bits: u32) -> i32 {
    if bits < 0x8000_0000 {
        bits as i32
    } else {
        (bits - 0x1_0000_0000) as i32
    }
}

/// The base-128 length prefix of `n`: seven bits per byte, lowest group
/// first, the high bit set on every byte but the last.
pub open spec fn varint(n: nat) -> Seq<u8>
    decreases n,
{
    if n < 128 {
        seq![n as u8]
    } else {
        seq![(n % 128 + 128) as u8] + varint(n / 128)
    }
}

pub open spec fn encode_bool(flag: bool) -> Seq<u8> {
    seq![if flag { 1u8 } else { 0u8 }]
}

pub open spec fn encode_i32(value: i32) -> Seq<u8> {
    le_bytes(i32_bits(value))
}

/// A string: the length prefix of its UTF-8 form, then the UTF-8 bytes.
pub open spec fn encode_string(s: Seq<char>) -> Seq<u8> {
    varint(encode_utf8(s).len()) + encode_utf8(s)
}

/// An identity: its length as a 32-bit integer, then its bytes.
pub open spec fn encode_guid(guid: Seq<u8>) -> Seq<u8> {
    encode_i32(guid.len() as i32) + guid
}

/// Three words in a row.
pub open spec fn encode_vec3(v: Seq<u32>) -> Seq<u8> {
    le_bytes(v[0]) + le_bytes(v[1]) + le_bytes(v[2])
}

/// Four words in a row.
pub open spec fn encode_vec4(v: Seq<u32>) -> Seq<u8> {
    le_bytes(v[0]) + le_bytes(v[1]) + le_bytes(v[2]) + le_bytes(v[3])
}

/// One entry of a client list: identity, then name.
pub open spec fn encode_client(client: ClientView) -> Seq<u8> {
    encode_guid(client.guid) + encode_string(client.name)
}

/// The entries of a client list, in order.
pub open spec fn encode_client_entries(clients: Seq<ClientView>) -> Seq<u8>
    decreases clients.len(),
{
    if clients.len() == 0 {
        Seq::empty()
    } else {
        encode_client_entries(clients.drop_last()) + encode_client(clients.last())
    }
}

/// A client list: the number of entries as a 32-bit integer, then the entries.
pub open spec fn encode_clients(clients: Seq<ClientView>) -> Seq<u8> {
    encode_i32(clients.len() as i32) + encode_client_entries(clients)
}

/// One entry of a player list: identity, controller slot, ready flag, character.
pub open spec fn encode_player(player: PlayerView) -> Seq<u8> {
    encode_guid(player.guid) + encode_i32(player.ctrl_type) + encode_bool(player.ready_to_race)
        + encode_i32(player.char_id)
}

/// The entries of a player list, in order.
pub open spec fn encode_player_entries(players: Seq<PlayerView>) -> Seq<u8>
    decreases players.len(),
{
    if players.len() == 0 {
        Seq::empty()
    } else {
        encode_player_entries(players.drop_last()) + encode_player(players.last())
    }
}

/// A player list: the number of entries as a 32-bit integer, then the entries.
pub open spec fn encode_players(players: Seq<PlayerView>) -> Seq<u8> {
    encode_i32(players.len() as i32) + encode_player_entries(players)
}

/// Match settings: the nine fields in the order in which they are declared.
pub open spec fn encode_settings(m: MatchConfig) -> Seq<u8> {
    encode_i32(m.stage_id) + encode_i32(m.laps) + encode_i32(m.ai_count) + encode_i32(m.ai_skill)
        + encode_i32(m.auto_start_time) + encode_i32(m.auto_start_min_players) + encode_i32(
        m.auto_return_time,
    ) + le_bytes(m.vote_ratio) + encode_i32(m.stage_rotation_mode)
}

/// A movement record: identity, controller byte, then position, rotation,
/// velocity, angular velocity and direction.
pub open spec fn encode_player_position(p: PlayerPositionView) -> Seq<u8> {
    encode_guid(p.guid) + seq![p.ctrl_type.spec_byte()] + encode_vec3(p.position) + encode_vec4(
        p.rotation,
    ) + encode_vec3(p.velocity) + encode_vec3(p.angular_velocity) + encode_vec3(p.direction)
}

/// What a decoder yields: the value and the position after it, or the
/// reason why there is no value at the position.
pub type Parsed<T> = Result<(T, int), DecodeError>;

pub open spec fn parse_byte(data: Seq<u8>, at: int) -> Parsed<u8> {
    if 0 <= at < data.len() {
        Ok((data[at], at + 1))
    } else {
        Err(DecodeError::Truncated)
    }
}

/// A flag is one byte; every byte but 0 reads as `true`.
pub open spec fn parse_bool(data: Seq<u8>, at: int) -> Parsed<bool> {
    if 0 <= at < data.len() {
        Ok((data[at] != 0, at + 1))
    } else {
        Err(DecodeError::Truncated)
    }
}

pub open spec fn parse_u32(data: Seq<u8>, at: int) -> Parsed<u32> {
    if 0 <= at && at + 4 <= data.len() {
        Ok((le_word(data[at], data[at + 1], data[at + 2], data[at + 3]), at + 4))
    } else {
        Err(DecodeError::Truncated)
    }
}

pub open spec fn parse_i32(data: Seq<u8>, at: int) -> Parsed<i32> {
    match parse_u32(data, at) {
        Ok((bits, next)) => Ok((bits_i32(bits), next)),
        Err(e) => Err(e),
    }
}

/// The value of the length prefix at `at` and the position behind it, for
/// a prefix that ends inside the data: seven bits from every byte, lowest
/// group first, up to the first byte without the high bit.
pub open spec fn varint_value(data: Seq<u8>, at: int) -> Option<(int, int)>
    decreases data.len() - at,
{
    if !(0 <= at < data.len()) {
        None
    } else if data[at] < 128 {
        Some((data[at] as int, at + 1))
    } else {
        match varint_value(data, at + 1) {
            Some((high, next)) => Some((data[at] as int - 128 + 128 * high, next)),
            None => None,
        }
    }
}

/// A length prefix of any number of bytes. One that runs off the end of the
/// data is truncated; one whose value does not fit 64 bits is rejected.
pub open spec fn parse_varint(data: Seq<u8>, at: int) -> Parsed<int> {
    match varint_value(data, at) {
        Some((value, next)) => if value > u64::MAX {
            Err(DecodeError::BadLength)
        } else {
            Ok((value, next))
        },
        None => Err(DecodeError::Truncated),
    }
}

/// A string: a length prefix, then that many bytes of UTF-8.
pub open spec fn parse_string(data: Seq<u8>, at: int) -> Parsed<Seq<char>> {
    match parse_varint(data, at) {
        Ok((len, start)) => if start + len > data.len() {
            Err(DecodeError::Truncated)
        } else if !valid_utf8(data.subrange(start, start + len)) {
            Err(DecodeError::BadUtf8)
        } else {
            Ok((decode_utf8(data.subrange(start, start + len)), start + len))
        },
        Err(e) => Err(e),
    }
}

/// An identity: a 32-bit length that is not negative, then that many bytes.
pub open spec fn parse_guid(data: Seq<u8>, at: int) -> Parsed<Seq<u8>> {
    match parse_i32(data, at) {
        Ok((len, start)) => if len < 0 {
            Err(DecodeError::BadLength)
        } else if start + len > data.len() {
            Err(DecodeError::Truncated)
        } else {
            Ok((data.subrange(start, start + len), start + len))
        },
        Err(e) => Err(e),
    }
}

pub open spec fn parse_vec3(data: Seq<u8>, at: int) -> Parsed<Seq<u32>> {
    if 0 <= at && at + 12 <= data.len() {
        Ok(
            (
                seq![
                    parse_u32(data, at)->Ok_0.0,
                    parse_u32(data, at + 4)->Ok_0.0,
                    parse_u32(data, at + 8)->Ok_0.0,
                ],
                at + 12,
            ),
        )
    } else {
        Err(DecodeError::Truncated)
    }
}

pub open spec fn parse_vec4(data: Seq<u8>, at: int) -> Parsed<Seq<u32>> {
    if 0 <= at && at + 16 <= data.len() {
        Ok(
            (
                seq![
                    parse_u32(data, at)->Ok_0.0,
                    parse_u32(data, at + 4)->Ok_0.0,
                    parse_u32(data, at + 8)->Ok_0.0,
                    parse_u32(data, at + 12)->Ok_0.0,
                ],
                at + 16,
            ),
        )
    } else {
        Err(DecodeError::Truncated)
    }
}

/// A run of bytes behind a one-byte count.
pub open spec fn parse_bytes(data: Seq<u8>, at: int) -> Parsed<Seq<u8>> {
    if !(0 <= at < data.len()) {
        Err(DecodeError::Truncated)
    } else if at + 1 + data[at] > data.len() {
        Err(DecodeError::Truncated)
    } else {
        Ok((data.subrange(at + 1, at + 1 + data[at]), at + 1 + data[at]))
    }
}

/// The byte that announces a game frame.
pub open spec fn parse_game_header(data: Seq<u8>, at: int) -> Parsed<GameHeader> {
    if !(0 <= at < data.len()) {
        Err(DecodeError::Truncated)
    } else if data[at] == 0 {
        Ok((GameHeader::MatchMessage, at + 1))
    } else if data[at] == 1 {
        Ok((GameHeader::InitMessage, at + 1))
    } else if data[at] == 2 {
        Ok((GameHeader::PlayerMovementMessage, at + 1))
    } else {
        Err(DecodeError::UnknownGameHeader)
    }
}

/// The byte that names a controller: 0 for the keyboard, 1 to 4 for the joysticks.
pub open spec fn parse_ctrl_type(data: Seq<u8>, at: int) -> Parsed<CtrlType> {
    if !(0 <= at < data.len()) {
        Err(DecodeError::Truncated)
    } else if data[at] <= 4 {
        Ok((CtrlType::spec_from_index(data[at] as i32), at + 1))
    } else {
        Err(DecodeError::UnknownCtrlType)
    }
}

/// `prefix` put before the values that `rest` yields.
pub open spec fn prepend<T>(prefix: Seq<T>, rest: Parsed<Seq<T>>) -> Parsed<Seq<T>> {
    match rest {
        Ok((values, end)) => Ok((prefix + values, end)),
        Err(e) => Err(e),
    }
}

/// One entry of a client list, as it is known once read: it belongs to the
/// peer that sent the list, and its sequence counter starts at 0.
pub open spec fn parse_client(data: Seq<u8>, at: int, origin: Endpoint) -> Parsed<ClientView> {
    match parse_guid(data, at) {
        Ok((guid, next)) => match parse_string(data, next) {
            Ok((name, end)) => Ok(
                (
                    ClientView {
                        guid,
                        name,
                        connection: origin,
                        is_loading: false,
                        wants_lobby: false,
                        counter: 0,
                    },
                    end,
                ),
            ),
            Err(e) => Err(e),
        },
        Err(e) => Err(e),
    }
}

/// `count` entries of a client list in a row; none where `count` is not positive.
pub open spec fn parse_client_entries(
    data: Seq<u8>,
    at: int,
    count: int,
    origin: Endpoint,
) -> Parsed<Seq<ClientView>>
    decreases count,
{
    if count <= 0 {
        Ok((Seq::empty(), at))
    } else {
        match parse_client(data, at, origin) {
            Ok((client, next)) => prepend(
                seq![client],
                parse_client_entries(data, next, count - 1, origin),
            ),
            Err(e) => Err(e),
        }
    }
}

/// A client list: a 32-bit count, then that many entries.
pub open spec fn parse_clients(data: Seq<u8>, at: int, origin: Endpoint) -> Parsed<
    Seq<ClientView>,
> {
    match parse_i32(data, at) {
        Ok((count, next)) => parse_client_entries(data, next, count as int, origin),
        Err(e) => Err(e),
    }
}

/// One entry of a player list, as it is known once read: not racing, not timed out.
pub open spec fn parse_player(data: Seq<u8>, at: int) -> Parsed<PlayerView> {
    match parse_guid(data, at) {
        Ok((guid, pos1)) => match parse_i32(data, pos1) {
            Ok((ctrl_type, pos2)) => match parse_bool(data, pos2) {
                Ok((ready_to_race, pos3)) => match parse_i32(data, pos3) {
                    Ok((char_id, end)) => Ok(
                        (
                            PlayerView {
                                guid,
                                ctrl_type,
                                char_id,
                                ready_to_race,
                                is_racing: false,
                                has_timed_out: false,
                            },
                            end,
                        ),
                    ),
                    Err(e) => Err(e),
                },
                Err(e) => Err(e),
            },
            Err(e) => Err(e),
        },
        Err(e) => Err(e),
    }
}

/// `count` entries of a player list in a row; none where `count` is not positive.
pub open spec fn parse_player_entries(data: Seq<u8>, at: int, count: int) -> Parsed<
    Seq<PlayerView>,
>
    decreases count,
{
    if count <= 0 {
        Ok((Seq::empty(), at))
    } else {
        match parse_player(data, at) {
            Ok((player, next)) => prepend(
                seq![player],
                parse_player_entries(data, next, count - 1),
            ),
            Err(e) => Err(e),
        }
    }
}

/// A player list: a 32-bit count, then that many entries.
pub open spec fn parse_players(data: Seq<u8>, at: int) -> Parsed<Seq<PlayerView>> {
    match parse_i32(data, at) {
        Ok((count, next)) => parse_player_entries(data, next, count as int),
        Err(e) => Err(e),
    }
}

/// Match settings: nine words, the eighth of them the vote ratio.
pub open spec fn parse_settings(data: Seq<u8>, at: int) -> Parsed<Settings> {
    if 0 <= at && at + 36 <= data.len() {
        Ok(
            (
                Settings {
                    stage_id: parse_i32(data, at)->Ok_0.0,
                    laps: parse_i32(data, at + 4)->Ok_0.0,
                    ai_count: parse_i32(data, at + 8)->Ok_0.0,
                    ai_skill: parse_i32(data, at + 12)->Ok_0.0,
                    auto_start_time: parse_i32(data, at + 16)->Ok_0.0,
                    auto_start_min_players: parse_i32(data, at + 20)->Ok_0.0,
                    auto_return_time: parse_i32(data, at + 24)->Ok_0.0,
                    vote_ratio: parse_u32(data, at + 28)->Ok_0.0,
                    stage_rotation_mode: parse_i32(data, at + 32)->Ok_0.0,
                },
                at + 36,
            ),
        )
    } else {
        Err(DecodeError::Truncated)
    }
}

/// A movement record: identity, controller byte, then sixteen words.
pub open spec fn parse_player_pos(data: Seq<u8>, at: int) -> Parsed<PlayerPositionView> {
    match parse_guid(data, at) {
        Ok((guid, pos1)) => match parse_ctrl_type(data, pos1) {
            Ok((ctrl_type, pos2)) => if pos2 + 64 <= data.len() {
                Ok(
                    (
                        PlayerPositionView {
                            guid,
                            ctrl_type,
                            position: parse_vec3(data, pos2)->Ok_0.0,
                            rotation: parse_vec4(data, pos2 + 12)->Ok_0.0,
                            velocity: parse_vec3(data, pos2 + 28)->Ok_0.0,
                            angular_velocity: parse_vec3(data, pos2 + 40)->Ok_0.0,
                            direction: parse_vec3(data, pos2 + 52)->Ok_0.0,
                        },
                        pos2 + 64,
                    ),
                )
            } else {
                Err(DecodeError::Truncated)
            },
            Err(e) => Err(e),
        },
        Err(e) => Err(e),
    }
}

/// Whether `data` holds the bytes `enc` at position `at`.
pub open spec fn placed(data: Seq<u8>, at: int, enc: Seq<u8>) -> bool {
    &&& 0 <= at
    &&& at + enc.len() <= data.len()
    &&& data.subrange(at, at + enc.len()) == enc
}

/// Data that holds two encodings in a row holds the first at the position
/// and the second right after it.
pub proof fn lemma_placed_split(data: Seq<u8>, at: int, first: Seq<u8>, second: Seq<u8>)
    requires
        placed(data, at, first + second),
    ensures
        placed(data, at, first),
        placed(data, at + first.len(), second),
{
    let whole = data.subrange(at, at + (first + second).len());
    assert(data.subrange(at, at + first.len()) =~= whole.subrange(0, first.len() as int));
    assert(whole.subrange(0, first.len() as int) =~= first);
    assert(data.subrange(at + first.len(), at + first.len() + second.len()) =~= whole.subrange(
        first.len() as int,
        whole.len() as int,
    ));
    assert(whole.subrange(first.len() as int, whole.len() as int) =~= second);
}

/// What is placed in the data is there byte by byte.
pub proof fn lemma_placed_index(data: Seq<u8>, at: int, enc: Seq<u8>, i: int)
    requires
        placed(data, at, enc),
        0 <= i < enc.len(),
    ensures
        data[at + i] == enc[i],
{
    assert(data.subrange(at, at + enc.len())[i] == data[at + i]);
}

/// The bytes of a word make the word again.
pub proof fn lemma_le_word_of_bytes(word: u32)
    ensures
        le_bytes(word).len() == 4,
        le_word(le_bytes(word)[0], le_bytes(word)[1], le_bytes(word)[2], le_bytes(word)[3])
            == word,
{
    assert(word == (word % 256) + 256 * (word / 256 % 256) + 65536 * (word / 65536 % 256)
        + 16777216 * (word / 16777216) && word / 16777216 < 256) by (bit_vector);
}

/// The word made of four bytes has those bytes.
pub proof fn lemma_le_bytes_of_word(b0: u8, b1: u8, b2: u8, b3: u8)
    ensures
        le_bytes(le_word(b0, b1, b2, b3)) == seq![b0, b1, b2, b3],
{
    let word: u32 = le_word(b0, b1, b2, b3);
    assert(word == b0 as u32 + 256 * (b1 as u32) + 65536 * (b2 as u32) + 16777216 * (b3 as u32));
    assert(word % 256 == b0 as u32 && word / 256 % 256 == b1 as u32 && word / 65536 % 256
        == b2 as u32 && word / 16777216 == b3 as u32) by (bit_vector)
        requires
            word == b0 as u32 + 256 * (b1 as u32) + 65536 * (b2 as u32) + 16777216 * (b3 as u32),
    ;
    assert(le_bytes(word) =~= seq![b0, b1, b2, b3]);
}

/// A signed integer and its bit pattern determine each other.
pub proof fn lemma_bits_roundtrip(value: i32, bits: u32)
    ensures
        bits_i32(i32_bits(value)) == value,
        i32_bits(bits_i32(bits)) == bits,
{
}

pub proof fn lemma_roundtrip_byte(data: Seq<u8>, at: int, byte: u8)
    requires
        placed(data, at, seq![byte]),
    ensures
        parse_byte(data, at) == Ok::<(u8, int), DecodeError>((byte, at + 1)),
{
    lemma_placed_index(data, at, seq![byte], 0);
}

pub proof fn lemma_roundtrip_bool(data: Seq<u8>, at: int, flag: bool)
    requires
        placed(data, at, encode_bool(flag)),
    ensures
        parse_bool(data, at) == Ok::<(bool, int), DecodeError>((flag, at + 1)),
{
    lemma_placed_index(data, at, encode_bool(flag), 0);
}

pub proof fn lemma_roundtrip_u32(data: Seq<u8>, at: int, word: u32)
    requires
        placed(data, at, le_bytes(word)),
    ensures
        parse_u32(data, at) == Ok::<(u32, int), DecodeError>((word, at + 4)),
{
    lemma_placed_index(data, at, le_bytes(word), 0);
    lemma_placed_index(data, at, le_bytes(word), 1);
    lemma_placed_index(data, at, le_bytes(word), 2);
    lemma_placed_index(data, at, le_bytes(word), 3);
    lemma_le_word_of_bytes(word);
}

pub proof fn lemma_roundtrip_i32(data: Seq<u8>, at: int, value: i32)
    requires
        placed(data, at, encode_i32(value)),
    ensures
        parse_i32(data, at) == Ok::<(i32, int), DecodeError>((value, at + 4)),
{
    lemma_roundtrip_u32(data, at, i32_bits(value));
    lemma_bits_roundtrip(value, 0);
}

/// The entries of the first `n` clients are written before those of the rest.
pub proof fn lemma_client_entries_prefix(clients: Seq<ClientView>, n: int)
    requires
        0 <= n <= clients.len(),
    ensures
        encode_client_entries(clients.take(n)).len() <= encode_client_entries(clients).len(),
    decreases clients.len() - n,
{
    if n < clients.len() {
        assert(clients.take(n + 1).drop_last() =~= clients.take(n));
        lemma_client_entries_prefix(clients, n + 1);
    } else {
        assert(clients.take(n) =~= clients);
    }
}

/// The entries of the first `n` players are written before those of the rest.
pub proof fn lemma_player_entries_prefix(players: Seq<PlayerView>, n: int)
    requires
        0 <= n <= players.len(),
    ensures
        encode_player_entries(players.take(n)).len() <= encode_player_entries(players).len(),
    decreases players.len() - n,
{
    if n < players.len() {
        assert(players.take(n + 1).drop_last() =~= players.take(n));
        lemma_player_entries_prefix(players, n + 1);
    } else {
        assert(players.take(n) =~= players);
    }
}

/// A length prefix has at least one byte.
pub proof fn lemma_varint_len(n: nat)
    ensures
        varint(n).len() >= 1,
        n < 128 ==> varint(n).len() == 1,
    decreases n,
{
    if n >= 128 {
        lemma_varint_len(n / 128);
    }
}

proof fn lemma_varint_value(data: Seq<u8>, at: int, n: nat)
    requires
        placed(data, at, varint(n)),
    ensures
        varint_value(data, at) == Some((n as int, at + varint(n).len())),
    decreases n,
{
    lemma_varint_len(n);
    lemma_placed_index(data, at, varint(n), 0);
    if n >= 128 {
        let head = seq![(n % 128 + 128) as u8];
        lemma_placed_split(data, at, head, varint(n / 128));
        lemma_varint_value(data, at + 1, n / 128);
    }
}

/// A length that fits 64 bits is read back from its prefix.
pub proof fn lemma_roundtrip_varint(data: Seq<u8>, at: int, n: nat)
    requires
        placed(data, at, varint(n)),
        n <= u64::MAX,
    ensures
        parse_varint(data, at) == Ok::<(int, int), DecodeError>((n as int, at + varint(n).len())),
{
    lemma_varint_value(data, at, n);
}

/// A string that is written is read back, whatever stands around it. This
/// holds across the boundary where the prefix grows from one byte to two.
pub proof fn lemma_roundtrip_string(data: Seq<u8>, at: int, s: Seq<char>)
    requires
        placed(data, at, encode_string(s)),
        encode_utf8(s).len() <= u64::MAX,
    ensures
        parse_string(data, at) == Ok::<(Seq<char>, int), DecodeError>(
            (s, at + encode_string(s).len()),
        ),
{
    let bytes = encode_utf8(s);
    lemma_placed_split(data, at, varint(bytes.len()), bytes);
    lemma_roundtrip_varint(data, at, bytes.len());
    vstd::utf8::encode_utf8_valid_utf8(s);
    vstd::utf8::encode_utf8_decode_utf8(s);
}

pub proof fn lemma_roundtrip_guid(data: Seq<u8>, at: int, guid: Seq<u8>)
    requires
        placed(data, at, encode_guid(guid)),
        guid.len() <= i32::MAX,
    ensures
        parse_guid(data, at) == Ok::<(Seq<u8>, int), DecodeError>(
            (guid, at + encode_guid(guid).len()),
        ),
{
    lemma_placed_split(data, at, encode_i32(guid.len() as i32), guid);
    lemma_roundtrip_i32(data, at, guid.len() as i32);
}

pub proof fn lemma_roundtrip_vec3(data: Seq<u8>, at: int, v: Seq<u32>)
    requires
        placed(data, at, encode_vec3(v)),
        v.len() == 3,
    ensures
        parse_vec3(data, at) == Ok::<(Seq<u32>, int), DecodeError>((v, at + 12)),
{
    lemma_placed_split(data, at, le_bytes(v[0]) + le_bytes(v[1]), le_bytes(v[2]));
    lemma_placed_split(data, at, le_bytes(v[0]), le_bytes(v[1]));
    lemma_roundtrip_u32(data, at, v[0]);
    lemma_roundtrip_u32(data, at + 4, v[1]);
    lemma_roundtrip_u32(data, at + 8, v[2]);
    assert(parse_vec3(data, at)->Ok_0.0 =~= v);
}

pub proof fn lemma_roundtrip_vec4(data: Seq<u8>, at: int, v: Seq<u32>)
    requires
        placed(data, at, encode_vec4(v)),
        v.len() == 4,
    ensures
        parse_vec4(data, at) == Ok::<(Seq<u32>, int), DecodeError>((v, at + 16)),
{
    lemma_placed_split(
        data,
        at,
        le_bytes(v[0]) + le_bytes(v[1]) + le_bytes(v[2]),
        le_bytes(v[3]),
    );
    lemma_placed_split(data, at, le_bytes(v[0]) + le_bytes(v[1]), le_bytes(v[2]));
    lemma_placed_split(data, at, le_bytes(v[0]), le_bytes(v[1]));
    lemma_roundtrip_u32(data, at, v[0]);
    lemma_roundtrip_u32(data, at + 4, v[1]);
    lemma_roundtrip_u32(data, at + 8, v[2]);
    lemma_roundtrip_u32(data, at + 12, v[3]);
    assert(parse_vec4(data, at)->Ok_0.0 =~= v);
}

/// A client as it is known to the peer that reads it from a list sent by `origin`.
pub open spec fn received_client(client: ClientView, origin: Endpoint) -> ClientView {
    ClientView {
        guid: client.guid,
        name: client.name,
        connection: origin,
        is_loading: false,
        wants_lobby: false,
        counter: 0,
    }
}

/// A player as it is known to the peer that reads it from a list.
pub open spec fn received_player(player: PlayerView) -> PlayerView {
    PlayerView {
        guid: player.guid,
        ctrl_type: player.ctrl_type,
        char_id: player.char_id,
        ready_to_race: player.ready_to_race,
        is_racing: false,
        has_timed_out: false,
    }
}

/// Whether the lengths of a client's identity and name fit their prefixes.
pub open spec fn client_fits(client: ClientView) -> bool {
    client.guid.len() <= i32::MAX && encode_utf8(client.name).len() <= u64::MAX
}

/// The entries of a list are the first entry, then the entries of the rest.
pub proof fn lemma_client_entries_front(clients: Seq<ClientView>)
    requires
        clients.len() > 0,
    ensures
        encode_client_entries(clients) == encode_client(clients[0]) + encode_client_entries(
            clients.skip(1),
        ),
    decreases clients.len(),
{
    if clients.len() == 1 {
        assert(clients.drop_last() =~= Seq::<ClientView>::empty());
        assert(clients.skip(1) =~= Seq::<ClientView>::empty());
        assert(encode_client_entries(clients.drop_last()) =~= Seq::<u8>::empty());
        assert(encode_client_entries(clients) =~= encode_client(clients[0])
            + encode_client_entries(clients.skip(1)));
    } else {
        lemma_client_entries_front(clients.drop_last());
        assert(clients.skip(1).drop_last() =~= clients.drop_last().skip(1));
        assert(clients.skip(1).last() == clients.last());
        assert(encode_client_entries(clients) =~= encode_client(clients[0])
            + encode_client_entries(clients.skip(1)));
    }
}

/// The entries of a list are the first entry, then the entries of the rest.
pub proof fn lemma_player_entries_front(players: Seq<PlayerView>)
    requires
        players.len() > 0,
    ensures
        encode_player_entries(players) == encode_player(players[0]) + encode_player_entries(
            players.skip(1),
        ),
    decreases players.len(),
{
    if players.len() == 1 {
        assert(players.drop_last() =~= Seq::<PlayerView>::empty());
        assert(players.skip(1) =~= Seq::<PlayerView>::empty());
        assert(encode_player_entries(players.drop_last()) =~= Seq::<u8>::empty());
        assert(encode_player_entries(players) =~= encode_player(players[0])
            + encode_player_entries(players.skip(1)));
    } else {
        lemma_player_entries_front(players.drop_last());
        assert(players.skip(1).drop_last() =~= players.drop_last().skip(1));
        assert(players.skip(1).last() == players.last());
        assert(encode_player_entries(players) =~= encode_player(players[0])
            + encode_player_entries(players.skip(1)));
    }
}

pub proof fn lemma_roundtrip_client(data: Seq<u8>, at: int, client: ClientView, origin: Endpoint)
    requires
        placed(data, at, encode_client(client)),
        client_fits(client),
    ensures
        parse_client(data, at, origin) == Ok::<(ClientView, int), DecodeError>(
            (received_client(client, origin), at + encode_client(client).len()),
        ),
{
    lemma_placed_split(data, at, encode_guid(client.guid), encode_string(client.name));
    lemma_roundtrip_guid(data, at, client.guid);
    lemma_roundtrip_string(data, at + encode_guid(client.guid).len(), client.name);
}

proof fn lemma_roundtrip_client_entries(
    data: Seq<u8>,
    at: int,
    clients: Seq<ClientView>,
    origin: Endpoint,
)
    requires
        placed(data, at, encode_client_entries(clients)),
        forall|i: int| 0 <= i < clients.len() ==> client_fits(#[trigger] clients[i]),
    ensures
        parse_client_entries(data, at, clients.len() as int, origin) == Ok::<
            (Seq<ClientView>, int),
            DecodeError,
        >(
            (
                clients.map_values(|c: ClientView| received_client(c, origin)),
                at + encode_client_entries(clients).len(),
            ),
        ),
    decreases clients.len(),
{
    let expected = clients.map_values(|c: ClientView| received_client(c, origin));
    if clients.len() == 0 {
        assert(expected =~= Seq::<ClientView>::empty());
    } else {
        let rest = clients.skip(1);
        lemma_client_entries_front(clients);
        lemma_placed_split(data, at, encode_client(clients[0]), encode_client_entries(rest));
        lemma_roundtrip_client(data, at, clients[0], origin);
        assert forall|i: int| 0 <= i < rest.len() implies client_fits(#[trigger] rest[i]) by {
            assert(rest[i] == clients[i + 1]);
        }
        lemma_roundtrip_client_entries(data, at + encode_client(clients[0]).len(), rest, origin);
        assert(seq![received_client(clients[0], origin)] + rest.map_values(
            |c: ClientView| received_client(c, origin),
        ) =~= expected);
    }
}

/// A client list that is written is read back: the same identities and
/// names in the same order, each client reached at the sender of the list
/// and with its counter at 0.
pub proof fn lemma_roundtrip_clients(
    data: Seq<u8>,
    at: int,
    clients: Seq<ClientView>,
    origin: Endpoint,
)
    requires
        placed(data, at, encode_clients(clients)),
        clients.len() <= i32::MAX,
        forall|i: int| 0 <= i < clients.len() ==> client_fits(#[trigger] clients[i]),
    ensures
        parse_clients(data, at, origin) == Ok::<(Seq<ClientView>, int), DecodeError>(
            (
                clients.map_values(|c: ClientView| received_client(c, origin)),
                at + encode_clients(clients).len(),
            ),
        ),
{
    lemma_placed_split(
        data,
        at,
        encode_i32(clients.len() as i32),
        encode_client_entries(clients),
    );
    lemma_roundtrip_i32(data, at, clients.len() as i32);
    lemma_roundtrip_client_entries(data, at + 4, clients, origin);
}

pub proof fn lemma_roundtrip_player(data: Seq<u8>, at: int, player: PlayerView)
    requires
        placed(data, at, encode_player(player)),
        player.guid.len() <= i32::MAX,
    ensures
        parse_player(data, at) == Ok::<(PlayerView, int), DecodeError>(
            (received_player(player), at + encode_player(player).len()),
        ),
{
    let g = encode_guid(player.guid);
    let c = encode_i32(player.ctrl_type);
    let r = encode_bool(player.ready_to_race);
    let h = encode_i32(player.char_id);
    lemma_placed_split(data, at, g + c + r, h);
    lemma_placed_split(data, at, g + c, r);
    lemma_placed_split(data, at, g, c);
    lemma_roundtrip_guid(data, at, player.guid);
    lemma_roundtrip_i32(data, at + g.len(), player.ctrl_type);
    lemma_roundtrip_bool(data, at + g.len() + 4, player.ready_to_race);
    lemma_roundtrip_i32(data, at + g.len() + 5, player.char_id);
}

proof fn lemma_roundtrip_player_entries(data: Seq<u8>, at: int, players: Seq<PlayerView>)
    requires
        placed(data, at, encode_player_entries(players)),
        forall|i: int| 0 <= i < players.len() ==> (#[trigger] players[i]).guid.len() <= i32::MAX,
    ensures
        parse_player_entries(data, at, players.len() as int) == Ok::<
            (Seq<PlayerView>, int),
            DecodeError,
        >(
            (
                players.map_values(|p: PlayerView| received_player(p)),
                at + encode_player_entries(players).len(),
            ),
        ),
    decreases players.len(),
{
    let expected = players.map_values(|p: PlayerView| received_player(p));
    if players.len() == 0 {
        assert(expected =~= Seq::<PlayerView>::empty());
    } else {
        let rest = players.skip(1);
        lemma_player_entries_front(players);
        lemma_placed_split(data, at, encode_player(players[0]), encode_player_entries(rest));
        lemma_roundtrip_player(data, at, players[0]);
        assert forall|i: int| 0 <= i < rest.len() implies (#[trigger] rest[i]).guid.len()
            <= i32::MAX by {
            assert(rest[i] == players[i + 1]);
        }
        lemma_roundtrip_player_entries(data, at + encode_player(players[0]).len(), rest);
        assert(seq![received_player(players[0])] + rest.map_values(
            |p: PlayerView| received_player(p),
        ) =~= expected);
    }
}

/// A player list that is written is read back: the same identities,
/// controller slots, ready flags and characters in the same order, every
/// player neither racing nor timed out.
pub proof fn lemma_roundtrip_players(data: Seq<u8>, at: int, players: Seq<PlayerView>)
    requires
        placed(data, at, encode_players(players)),
        players.len() <= i32::MAX,
        forall|i: int| 0 <= i < players.len() ==> (#[trigger] players[i]).guid.len() <= i32::MAX,
    ensures
        parse_players(data, at) == Ok::<(Seq<PlayerView>, int), DecodeError>(
            (
                players.map_values(|p: PlayerView| received_player(p)),
                at + encode_players(players).len(),
            ),
        ),
{
    lemma_placed_split(
        data,
        at,
        encode_i32(players.len() as i32),
        encode_player_entries(players),
    );
    lemma_roundtrip_i32(data, at, players.len() as i32);
    lemma_roundtrip_player_entries(data, at + 4, players);
}

/// Match settings take 36 bytes.
pub proof fn lemma_settings_len(m: MatchConfig)
    ensures
        encode_settings(m).len() == 36,
{
}

/// The settings read are the settings written, field by field.
pub open spec fn settings_of(m: MatchConfig) -> Settings {
    Settings {
        stage_id: m.stage_id,
        laps: m.laps,
        ai_count: m.ai_count,
        ai_skill: m.ai_skill,
        auto_start_time: m.auto_start_time,
        auto_start_min_players: m.auto_start_min_players,
        auto_return_time: m.auto_return_time,
        vote_ratio: m.vote_ratio,
        stage_rotation_mode: m.stage_rotation_mode,
    }
}

pub proof fn lemma_roundtrip_settings(data: Seq<u8>, at: int, m: MatchConfig)
    requires
        placed(data, at, encode_settings(m)),
    ensures
        parse_settings(data, at) == Ok::<(Settings, int), DecodeError>((settings_of(m), at + 36)),
{
    let e1 = encode_i32(m.stage_id);
    let e2 = e1 + encode_i32(m.laps);
    let e3 = e2 + encode_i32(m.ai_count);
    let e4 = e3 + encode_i32(m.ai_skill);
    let e5 = e4 + encode_i32(m.auto_start_time);
    let e6 = e5 + encode_i32(m.auto_start_min_players);
    let e7 = e6 + encode_i32(m.auto_return_time);
    let e8 = e7 + le_bytes(m.vote_ratio);
    lemma_placed_split(data, at, e8, encode_i32(m.stage_rotation_mode));
    lemma_placed_split(data, at, e7, le_bytes(m.vote_ratio));
    lemma_placed_split(data, at, e6, encode_i32(m.auto_return_time));
    lemma_placed_split(data, at, e5, encode_i32(m.auto_start_min_players));
    lemma_placed_split(data, at, e4, encode_i32(m.auto_start_time));
    lemma_placed_split(data, at, e3, encode_i32(m.ai_skill));
    lemma_placed_split(data, at, e2, encode_i32(m.ai_count));
    lemma_placed_split(data, at, e1, encode_i32(m.laps));
    lemma_roundtrip_i32(data, at, m.stage_id);
    lemma_roundtrip_i32(data, at + 4, m.laps);
    lemma_roundtrip_i32(data, at + 8, m.ai_count);
    lemma_roundtrip_i32(data, at + 12, m.ai_skill);
    lemma_roundtrip_i32(data, at + 16, m.auto_start_time);
    lemma_roundtrip_i32(data, at + 20, m.auto_start_min_players);
    lemma_roundtrip_i32(data, at + 24, m.auto_return_time);
    lemma_roundtrip_u32(data, at + 28, m.vote_ratio);
    lemma_roundtrip_i32(data, at + 32, m.stage_rotation_mode);
}

/// A movement record that is written is read back, for every controller
/// that a record can name.
pub proof fn lemma_roundtrip_player_position(data: Seq<u8>, at: int, p: PlayerPositionView)
    requires
        placed(data, at, encode_player_position(p)),
        p.guid.len() <= i32::MAX,
        p.ctrl_type != CtrlType::Unassigned,
        p.position.len() == 3,
        p.rotation.len() == 4,
        p.velocity.len() == 3,
        p.angular_velocity.len() == 3,
        p.direction.len() == 3,
    ensures
        parse_player_pos(data, at) == Ok::<(PlayerPositionView, int), DecodeError>(
            (p, at + encode_player_position(p).len()),
        ),
{
    let g = encode_guid(p.guid);
    let e1 = g + seq![p.ctrl_type.spec_byte()];
    let e2 = e1 + encode_vec3(p.position);
    let e3 = e2 + encode_vec4(p.rotation);
    let e4 = e3 + encode_vec3(p.velocity);
    let e5 = e4 + encode_vec3(p.angular_velocity);
    lemma_placed_split(data, at, e5, encode_vec3(p.direction));
    lemma_placed_split(data, at, e4, encode_vec3(p.angular_velocity));
    lemma_placed_split(data, at, e3, encode_vec3(p.velocity));
    lemma_placed_split(data, at, e2, encode_vec4(p.rotation));
    lemma_placed_split(data, at, e1, encode_vec3(p.position));
    lemma_placed_split(data, at, g, seq![p.ctrl_type.spec_byte()]);
    lemma_roundtrip_guid(data, at, p.guid);
    let pos1 = at + g.len();
    lemma_roundtrip_byte(data, pos1, p.ctrl_type.spec_byte());
    lemma_roundtrip_vec3(data, pos1 + 1, p.position);
    lemma_roundtrip_vec4(data, pos1 + 13, p.rotation);
    lemma_roundtrip_vec3(data, pos1 + 29, p.velocity);
    lemma_roundtrip_vec3(data, pos1 + 41, p.angular_velocity);
    lemma_roundtrip_vec3(data, pos1 + 53, p.direction);
}

/// `String::from_utf8`: the string whose UTF-8 form is `bytes`, where
/// `bytes` is UTF-8, and nothing otherwise.
#[verifier::external_body]
fn string_from_utf8(bytes: Vec<u8>) -> (result: Option<String>)
    ensures
        result is Some <==> valid_utf8(bytes@),
        result matches Some(s) ==> s@ == decode_utf8(bytes@),
{
    match String::from_utf8(bytes) {
        Ok(s) => Some(s),
        Err(_) => None,
    }
}

/// Reads one byte at `at`.
pub fn decode_byte(data: &[u8], at: usize) -> (result: Result<(u8, usize), DecodeError>)
    ensures
        match result {
            Ok((v, next)) => parse_byte(data@, at as int) == Ok::<(u8, int), DecodeError>(
                (v, next as int),
            ),
            Err(e) => parse_byte(data@, at as int) == Err::<(u8, int), DecodeError>(e),
        },
{
    if at < data.len() {
        Ok((data[at], at + 1))
    } else {
        Err(DecodeError::Truncated)
    }
}

/// Reads a flag at `at`.
pub fn decode_bool(data: &[u8], at: usize) -> (result: Result<(bool, usize), DecodeError>)
    ensures
        match result {
            Ok((v, next)) => parse_bool(data@, at as int) == Ok::<(bool, int), DecodeError>(
                (v, next as int),
            ),
            Err(e) => parse_bool(data@, at as int) == Err::<(bool, int), DecodeError>(e),
        },
{
    if at < data.len() {
        Ok((data[at] != 0, at + 1))
    } else {
        Err(DecodeError::Truncated)
    }
}

/// Reads a 32-bit word at `at`.
pub fn decode_u32(data: &[u8], at: usize) -> (result: Result<(u32, usize), DecodeError>)
    ensures
        match result {
            Ok((v, next)) => parse_u32(data@, at as int) == Ok::<(u32, int), DecodeError>(
                (v, next as int),
            ),
            Err(e) => parse_u32(data@, at as int) == Err::<(u32, int), DecodeError>(e),
        },
{
    if data.len() < 4 || at > data.len() - 4 {
        return Err(DecodeError::Truncated);
    }
    let word: u32 = data[at] as u32 + 256 * (data[at + 1] as u32) + 65536 * (data[at + 2] as u32)
        + 16777216 * (data[at + 3] as u32);
    Ok((word, at + 4))
}

/// Reads a signed 32-bit integer at `at`.
pub fn decode_i32(data: &[u8], at: usize) -> (result: Result<(i32, usize), DecodeError>)
    ensures
        match result {
            Ok((v, next)) => parse_i32(data@, at as int) == Ok::<(i32, int), DecodeError>(
                (v, next as int),
            ),
            Err(e) => parse_i32(data@, at as int) == Err::<(i32, int), DecodeError>(e),
        },
{
    match decode_u32(data, at) {
        Ok((bits, next)) => {
            let value: i32 = if bits < 0x8000_0000 {
                bits as i32
            } else {
                (bits as i64 - 0x1_0000_0000) as i32
            };
            Ok((value, next))
        },
        Err(e) => Err(e),
    }
}

/// A run of bytes that all have the high bit set up to the end of the data
/// holds no length prefix.
proof fn lemma_varint_runs_off(data: Seq<u8>, at: int)
    requires
        0 <= at,
        forall|j: int| at <= j < data.len() ==> data[j] >= 128,
    ensures
        varint_value(data, at) is None,
    decreases data.len() - at,
{
    if at < data.len() {
        lemma_varint_runs_off(data, at + 1);
    }
}

/// Reads a length prefix at `at`.
pub fn decode_varint(data: &[u8], at: usize) -> (result: Result<(u64, usize), DecodeError>)
    ensures
        match result {
            Ok((v, next)) => parse_varint(data@, at as int) == Ok::<(int, int), DecodeError>(
                (v as int, next as int),
            ) && next <= data@.len(),
            Err(e) => parse_varint(data@, at as int) == Err::<(int, int), DecodeError>(e),
        },
{
    let len = data.len();
    let mut end: usize = at;
    while end < len && data[end] >= 128
        invariant
            at <= end,
            len == data@.len(),
            forall|j: int| at <= j < end ==> data@[j] >= 128,
        decreases len - end,
    {
        end += 1;
    }
    if end >= len {
        proof {
            lemma_varint_runs_off(data@, at as int);
        }
        return Err(DecodeError::Truncated);
    }
    let mut value: u64 = data[end] as u64;
    let mut overflow = false;
    let mut i: usize = end;
    let ghost mut exact: int = data@[end as int] as int;
    while i > at
        invariant
            at <= i <= end < len,
            len == data@.len(),
            forall|j: int| at <= j < end ==> data@[j] >= 128,
            varint_value(data@, i as int) == Some((exact, end + 1)),
            exact >= 0,
            overflow ==> exact > u64::MAX,
            !overflow ==> exact == value,
        decreases i,
    {
        i -= 1;
        let low: u64 = (data[i] - 128) as u64;
        proof {
            exact = low + 128 * exact;
        }
        if overflow || value > (u64::MAX - low) / 128 {
            overflow = true;
        } else {
            value = low + 128 * value;
        }
    }
    if overflow {
        Err(DecodeError::BadLength)
    } else {
        Ok((value, end + 1))
    }
}

/// Reads a string at `at`.
pub fn decode_string(data: &[u8], at: usize) -> (result: Result<(String, usize), DecodeError>)
    ensures
        match result {
            Ok((v, next)) => parse_string(data@, at as int) == Ok::<(Seq<char>, int), DecodeError>(
                (v@, next as int),
            ),
            Err(e) => parse_string(data@, at as int) == Err::<(Seq<char>, int), DecodeError>(e),
        },
{
    match decode_varint(data, at) {
        Ok((len, start)) => {
            if len > (data.len() - start) as u64 {
                return Err(DecodeError::Truncated);
            }
            let end: usize = start + len as usize;
            let bytes = slice_to_vec(slice_subrange(data, start, end));
            match string_from_utf8(bytes) {
                Some(s) => Ok((s, end)),
                None => Err(DecodeError::BadUtf8),
            }
        },
        Err(e) => Err(e),
    }
}

/// Reads an identity at `at`.
pub fn decode_guid(data: &[u8], at: usize) -> (result: Result<(Vec<u8>, usize), DecodeError>)
    ensures
        match result {
            Ok((v, next)) => parse_guid(data@, at as int) == Ok::<(Seq<u8>, int), DecodeError>(
                (v@, next as int),
            ),
            Err(e) => parse_guid(data@, at as int) == Err::<(Seq<u8>, int), DecodeError>(e),
        },
{
    match decode_i32(data, at) {
        Ok((len, start)) => {
            if len < 0 {
                return Err(DecodeError::BadLength);
            }
            if len as usize > data.len() - start {
                return Err(DecodeError::Truncated);
            }
            let end: usize = start + len as usize;
            Ok((slice_to_vec(slice_subrange(data, start, end)), end))
        },
        Err(e) => Err(e),
    }
}

/// Reads a run of bytes behind a one-byte count at `at`.
pub fn decode_bytes(data: &[u8], at: usize) -> (result: Result<(Vec<u8>, usize), DecodeError>)
    ensures
        match result {
            Ok((v, next)) => parse_bytes(data@, at as int) == Ok::<(Seq<u8>, int), DecodeError>(
                (v@, next as int),
            ),
            Err(e) => parse_bytes(data@, at as int) == Err::<(Seq<u8>, int), DecodeError>(e),
        },
{
    if at >= data.len() {
        return Err(DecodeError::Truncated);
    }
    let len: usize = data[at] as usize;
    if len > data.len() - at - 1 {
        return Err(DecodeError::Truncated);
    }
    let end: usize = at + 1 + len;
    Ok((slice_to_vec(slice_subrange(data, at + 1, end)), end))
}

/// Reads the byte that announces a game frame at `at`.
pub fn decode_game_header(data: &[u8], at: usize) -> (result: Result<
    (GameHeader, usize),
    DecodeError,
>)
    ensures
        match result {
            Ok((v, next)) => parse_game_header(data@, at as int) == Ok::<
                (GameHeader, int),
                DecodeError,
            >((v, next as int)),
            Err(e) => parse_game_header(data@, at as int) == Err::<(GameHeader, int), DecodeError>(
                e,
            ),
        },
{
    if at >= data.len() {
        return Err(DecodeError::Truncated);
    }
    let byte = data[at];
    if byte == 0 {
        Ok((GameHeader::MatchMessage, at + 1))
    } else if byte == 1 {
        Ok((GameHeader::InitMessage, at + 1))
    } else if byte == 2 {
        Ok((GameHeader::PlayerMovementMessage, at + 1))
    } else {
        Err(DecodeError::UnknownGameHeader)
    }
}

/// Reads the byte that names a controller at `at`.
pub fn decode_ctrl_type(data: &[u8], at: usize) -> (result: Result<(CtrlType, usize), DecodeError>)
    ensures
        match result {
            Ok((v, next)) => parse_ctrl_type(data@, at as int) == Ok::<
                (CtrlType, int),
                DecodeError,
            >((v, next as int)),
            Err(e) => parse_ctrl_type(data@, at as int) == Err::<(CtrlType, int), DecodeError>(e),
        },
{
    if at >= data.len() {
        return Err(DecodeError::Truncated);
    }
    let byte = data[at];
    if byte == 0 {
        Ok((CtrlType::Keyboard, at + 1))
    } else if byte == 1 {
        Ok((CtrlType::Joystick1, at + 1))
    } else if byte == 2 {
        Ok((CtrlType::Joystick2, at + 1))
    } else if byte == 3 {
        Ok((CtrlType::Joystick3, at + 1))
    } else if byte == 4 {
        Ok((CtrlType::Joystick4, at + 1))
    } else {
        Err(DecodeError::UnknownCtrlType)
    }
}

/// Reads three single-precision numbers at `at`, as bit patterns.
pub fn decode_vec3(data: &[u8], at: usize) -> (result: Result<([u32; 3], usize), DecodeError>)
    ensures
        match result {
            Ok((v, next)) => parse_vec3(data@, at as int) == Ok::<(Seq<u32>, int), DecodeError>(
                (v@, next as int),
            ),
            Err(e) => parse_vec3(data@, at as int) == Err::<(Seq<u32>, int), DecodeError>(e),
        },
{
    if data.len() < 12 || at > data.len() - 12 {
        return Err(DecodeError::Truncated);
    }
    match (decode_u32(data, at), decode_u32(data, at + 4), decode_u32(data, at + 8)) {
        (Ok((a, _)), Ok((b, _)), Ok((c, _))) => {
            let v: [u32; 3] = [a, b, c];
            assert(v@ =~= parse_vec3(data@, at as int)->Ok_0.0);
            Ok((v, at + 12))
        },
        _ => Err(DecodeError::Truncated),
    }
}

/// Reads four single-precision numbers at `at`, as bit patterns.
pub fn decode_vec4(data: &[u8], at: usize) -> (result: Result<([u32; 4], usize), DecodeError>)
    ensures
        match result {
            Ok((v, next)) => parse_vec4(data@, at as int) == Ok::<(Seq<u32>, int), DecodeError>(
                (v@, next as int),
            ),
            Err(e) => parse_vec4(data@, at as int) == Err::<(Seq<u32>, int), DecodeError>(e),
        },
{
    if data.len() < 16 || at > data.len() - 16 {
        return Err(DecodeError::Truncated);
    }
    match (
        decode_u32(data, at),
        decode_u32(data, at + 4),
        decode_u32(data, at + 8),
        decode_u32(data, at + 12),
    ) {
        (Ok((a, _)), Ok((b, _)), Ok((c, _)), Ok((d, _))) => {
            let v: [u32; 4] = [a, b, c, d];
            assert(v@ =~= parse_vec4(data@, at as int)->Ok_0.0);
            Ok((v, at + 16))
        },
        _ => Err(DecodeError::Truncated),
    }
}

/// Putting a prefix before a prefix is putting both before.
pub proof fn lemma_prepend_twice<T>(a: Seq<T>, b: Seq<T>, rest: Parsed<Seq<T>>)
    ensures
        prepend(a, prepend(b, rest)) == prepend(a + b, rest),
{
    if let Ok((values, end)) = rest {
        assert(a + (b + values) =~= (a + b) + values);
    }
}

/// Reads a client list at `at`. Every client of the list is taken to be
/// reached at `origin`.
pub fn decode_clients(data: &[u8], at: usize, origin: Endpoint) -> (result: Result<
    (Vec<Client>, usize),
    DecodeError,
>)
    ensures
        match result {
            Ok((v, next)) => parse_clients(data@, at as int, origin) == Ok::<
                (Seq<ClientView>, int),
                DecodeError,
            >((client_views(v@), next as int)),
            Err(e) => parse_clients(data@, at as int, origin) == Err::<
                (Seq<ClientView>, int),
                DecodeError,
            >(e),
        },
{
    let (count, first) = match decode_i32(data, at) {
        Ok(pair) => pair,
        Err(e) => {
            return Err(e);
        },
    };
    let mut clients: Vec<Client> = Vec::new();
    let mut size: i32 = count;
    let mut cursor: usize = first;
    let ghost whole = parse_client_entries(data@, first as int, count as int, origin);
    assert(prepend(client_views(clients@), whole) == whole) by {
        if let Ok((values, end)) = whole {
            assert(client_views(clients@) + values =~= values);
        }
    }
    while size > 0
        invariant
            parse_clients(data@, at as int, origin) == whole,
            whole == prepend(
                client_views(clients@),
                parse_client_entries(data@, cursor as int, size as int, origin),
            ),
        decreases size,
    {
        let ghost before = client_views(clients@);
        let (guid, after_guid) = match decode_guid(data, cursor) {
            Ok(pair) => pair,
            Err(e) => {
                return Err(e);
            },
        };
        let (name, after_name) = match decode_string(data, after_guid) {
            Ok(pair) => pair,
            Err(e) => {
                return Err(e);
            },
        };
        let client = Client {
            guid,
            name,
            connection: origin,
            is_loading: false,
            wants_lobby: false,
            counter: 0,
        };
        proof {
            lemma_prepend_twice(
                before,
                seq![client@],
                parse_client_entries(data@, after_name as int, size - 1, origin),
            );
        }
        clients.push(client);
        assert(client_views(clients@) =~= before + seq![client@]);
        size -= 1;
        cursor = after_name;
    }
    assert(client_views(clients@) + Seq::<ClientView>::empty() =~= client_views(clients@));
    Ok((clients, cursor))
}

/// Reads a player list at `at`.
pub fn decode_players(data: &[u8], at: usize) -> (result: Result<(Vec<Player>, usize), DecodeError>)
    ensures
        match result {
            Ok((v, next)) => parse_players(data@, at as int) == Ok::<
                (Seq<PlayerView>, int),
                DecodeError,
            >((player_views(v@), next as int)),
            Err(e) => parse_players(data@, at as int) == Err::<(Seq<PlayerView>, int), DecodeError>(
                e,
            ),
        },
{
    let (count, first) = match decode_i32(data, at) {
        Ok(pair) => pair,
        Err(e) => {
            return Err(e);
        },
    };
    let mut players: Vec<Player> = Vec::new();
    let mut size: i32 = count;
    let mut cursor: usize = first;
    let ghost whole = parse_player_entries(data@, first as int, count as int);
    assert(prepend(player_views(players@), whole) == whole) by {
        if let Ok((values, end)) = whole {
            assert(player_views(players@) + values =~= values);
        }
    }
    while size > 0
        invariant
            parse_players(data@, at as int) == whole,
            whole == prepend(
                player_views(players@),
                parse_player_entries(data@, cursor as int, size as int),
            ),
        decreases size,
    {
        let ghost before = player_views(players@);
        let (guid, pos1) = match decode_guid(data, cursor) {
            Ok(pair) => pair,
            Err(e) => {
                return Err(e);
            },
        };
        let (ctrl_type, pos2) = match decode_i32(data, pos1) {
            Ok(pair) => pair,
            Err(e) => {
                return Err(e);
            },
        };
        let (ready_to_race, pos3) = match decode_bool(data, pos2) {
            Ok(pair) => pair,
            Err(e) => {
                return Err(e);
            },
        };
        let (char_id, pos4) = match decode_i32(data, pos3) {
            Ok(pair) => pair,
            Err(e) => {
                return Err(e);
            },
        };
        let player = Player {
            guid,
            ctrl_type,
            char_id,
            ready_to_race,
            is_racing: false,
            race_timeout: Stopwatch {  },
            has_timed_out: false,
        };
        proof {
            lemma_prepend_twice(
                before,
                seq![player@],
                parse_player_entries(data@, pos4 as int, size - 1),
            );
        }
        players.push(player);
        assert(player_views(players@) =~= before + seq![player@]);
        size -= 1;
        cursor = pos4;
    }
    assert(player_views(players@) + Seq::<PlayerView>::empty() =~= player_views(players@));
    Ok((players, cursor))
}

/// Reads match settings at `at`.
pub fn decode_settings(data: &[u8], at: usize) -> (result: Result<(Settings, usize), DecodeError>)
    ensures
        match result {
            Ok((v, next)) => parse_settings(data@, at as int) == Ok::<(Settings, int), DecodeError>(
                (v, next as int),
            ),
            Err(e) => parse_settings(data@, at as int) == Err::<(Settings, int), DecodeError>(e),
        },
{
    if data.len() < 36 || at > data.len() - 36 {
        return Err(DecodeError::Truncated);
    }
    match (
        decode_i32(data, at),
        decode_i32(data, at + 4),
        decode_i32(data, at + 8),
        decode_i32(data, at + 12),
        decode_i32(data, at + 16),
        decode_i32(data, at + 20),
        decode_i32(data, at + 24),
        decode_u32(data, at + 28),
        decode_i32(data, at + 32),
    ) {
        (
            Ok((stage_id, _)),
            Ok((laps, _)),
            Ok((ai_count, _)),
            Ok((ai_skill, _)),
            Ok((auto_start_time, _)),
            Ok((auto_start_min_players, _)),
            Ok((auto_return_time, _)),
            Ok((vote_ratio, _)),
            Ok((stage_rotation_mode, _)),
        ) => Ok(
            (
                Settings {
                    stage_id,
                    laps,
                    ai_count,
                    ai_skill,
                    auto_start_time,
                    auto_start_min_players,
                    auto_return_time,
                    vote_ratio,
                    stage_rotation_mode,
                },
                at + 36,
            ),
        ),
        _ => Err(DecodeError::Truncated),
    }
}

/// Reads a movement record at `at`.
pub fn decode_player_pos(data: &[u8], at: usize) -> (result: Result<
    (PlayerPosition, usize),
    DecodeError,
>)
    ensures
        match result {
            Ok((v, next)) => parse_player_pos(data@, at as int) == Ok::<
                (PlayerPositionView, int),
                DecodeError,
            >((v@, next as int)),
            Err(e) => parse_player_pos(data@, at as int) == Err::<
                (PlayerPositionView, int),
                DecodeError,
            >(e),
        },
{
    let (guid, pos1) = match decode_guid(data, at) {
        Ok(pair) => pair,
        Err(e) => {
            return Err(e);
        },
    };
    let (ctrl_type, pos2) = match decode_ctrl_type(data, pos1) {
        Ok(pair) => pair,
        Err(e) => {
            return Err(e);
        },
    };
    if data.len() < 64 || pos2 > data.len() - 64 {
        return Err(DecodeError::Truncated);
    }
    match (
        decode_vec3(data, pos2),
        decode_vec4(data, pos2 + 12),
        decode_vec3(data, pos2 + 28),
        decode_vec3(data, pos2 + 40),
        decode_vec3(data, pos2 + 52),
    ) {
        (
            Ok((position, _)),
            Ok((rotation, _)),
            Ok((velocity, _)),
            Ok((angular_velocity, _)),
            Ok((direction, _)),
        ) => Ok(
            (
                PlayerPosition {
                    guid,
                    ctrl_type,
                    position,
                    rotation,
                    velocity,
                    angular_velocity,
                    direction,
                },
                pos2 + 64,
            ),
        ),
        _ => Err(DecodeError::Truncated),
    }
}

/// `n`, or the largest machine size where `n` is larger.
pub open spec fn capped(n: int) -> usize {
    if n <= usize::MAX {
        n as usize
    } else {
        usize::MAX
    }
}

/// The number of bytes of the length prefix of `n`.
pub fn varint_size(n: usize) -> (k: usize)
    ensures
        k == varint(n as nat).len(),
        1 <= k <= 10,
{
    let mut rest: usize = n;
    let mut k: usize = 1;
    proof {
        lemma_varint_steps(n as nat);
    }
    while rest >= 128
        invariant
            k - 1 + varint(rest as nat).len() == varint(n as nat).len(),
            varint(n as nat).len() <= 10,
            k >= 1,
        decreases rest,
    {
        proof {
            lemma_varint_len((rest / 128) as nat);
        }
        assert(varint(rest as nat) == seq![(rest % 128 + 128) as u8] + varint((rest / 128) as nat));
        rest = rest / 128;
        k += 1;
    }
    k
}

/// The length prefix of a machine size has at most ten bytes.
proof fn lemma_varint_steps(n: nat)
    requires
        n <= usize::MAX,
    ensures
        varint(n).len() <= 10,
{
    reveal_with_fuel(varint, 11);
    assert(n / 128 / 128 / 128 / 128 / 128 / 128 / 128 / 128 / 128 < 128) by (nonlinear_arith)
        requires
            n <= 0xffff_ffff_ffff_ffff,
    ;
}

/// The number of bytes that a string takes on the wire, capped at the
/// largest machine size.
pub fn string_size(s: &str) -> (k: usize)
    ensures
        k == capped(encode_string(s@).len() as int),
{
    let len = s.as_bytes().len();
    let prefix = varint_size(len);
    if len > usize::MAX - prefix {
        usize::MAX
    } else {
        len + prefix
    }
}

/// The number of bytes that an identity takes on the wire, capped at the
/// largest machine size.
pub fn guid_size(guid: &Vec<u8>) -> (k: usize)
    ensures
        k == capped(encode_guid(guid@).len() as int),
{
    proof {
        lemma_le_word_of_bytes(i32_bits(guid@.len() as i32));
    }
    if guid.len() > usize::MAX - 4 {
        usize::MAX
    } else {
        guid.len() + 4
    }
}

/// `a + b`, capped at the largest machine size.
fn capped_sum(a: usize, b: usize) -> (k: usize)
    ensures
        k == capped(a + b),
{
    if a > usize::MAX - b {
        usize::MAX
    } else {
        a + b
    }
}

/// The number of bytes that a client list takes on the wire, capped at the
/// largest machine size.
pub fn clients_size(clients: &Vec<Client>) -> (k: usize)
    ensures
        k == capped(encode_clients(client_views(clients@)).len() as int),
{
    let ghost views = client_views(clients@);
    let mut k: usize = 4;
    let mut i: usize = 0;
    proof {
        lemma_le_word_of_bytes(i32_bits(clients@.len() as i32));
        assert(encode_client_entries(views.take(0)) =~= Seq::<u8>::empty());
    }
    while i < clients.len()
        invariant
            i <= clients.len(),
            views == client_views(clients@),
            k == capped(4 + encode_client_entries(views.take(i as int)).len() as int),
        decreases clients.len() - i,
    {
        proof {
            assert(views.take(i + 1).drop_last() =~= views.take(i as int));
            assert(views.take(i + 1).last() == clients@[i as int]@);
        }
        let entry = capped_sum(guid_size(&clients[i].guid), string_size(clients[i].name.as_str()));
        k = capped_sum(k, entry);
        i += 1;
    }
    assert(views.take(clients@.len() as int) =~= views);
    k
}

/// The number of bytes that a player list takes on the wire, capped at the
/// largest machine size.
pub fn players_size(players: &Vec<Player>) -> (k: usize)
    ensures
        k == capped(encode_players(player_views(players@)).len() as int),
{
    let ghost views = player_views(players@);
    let mut k: usize = 4;
    let mut i: usize = 0;
    proof {
        lemma_le_word_of_bytes(i32_bits(players@.len() as i32));
        assert(encode_player_entries(views.take(0)) =~= Seq::<u8>::empty());
    }
    while i < players.len()
        invariant
            i <= players.len(),
            views == player_views(players@),
            k == capped(4 + encode_player_entries(views.take(i as int)).len() as int),
        decreases players.len() - i,
    {
        proof {
            assert(views.take(i + 1).drop_last() =~= views.take(i as int));
            assert(views.take(i + 1).last() == players@[i as int]@);
            lemma_le_word_of_bytes(i32_bits(players@[i as int].ctrl_type));
            lemma_le_word_of_bytes(i32_bits(players@[i as int].char_id));
        }
        let entry = capped_sum(guid_size(&players[i].guid), 9);
        k = capped_sum(k, entry);
        i += 1;
    }
    assert(views.take(players@.len() as int) =~= views);
    k
}

} // verus!
