//! The scratch region in which one outbound datagram is built: payload
//! fields first, then the preamble.
use crate::data::{client_views, player_views, Client, MatchConfig, Player, PlayerPosition};
use crate::game::{CtrlType, GameHeader, MessageTypes};
use crate::headers::{preamble, restamped, Header, CAPACITY, PREAMBLE};
use crate::text::{chars_of, extend, replace, replace_first, string_of};
use crate::to_byte;
use crate::wire::{
    encode_bool, encode_client_entries, encode_clients, encode_guid, encode_i32,
    encode_player_entries, encode_player_position, encode_players, encode_settings,
    encode_string, encode_vec3, encode_vec4, le_bytes, varint,
};
use vstd::prelude::*;

verus! {

/// A region of 1500 bytes with a write cursor. The first five bytes are kept
/// for the preamble; fields are appended behind them.
pub struct Buffer {
    payload: [u8; 1500],
    seq: usize,
    ptr: usize,
}

impl Buffer {
    #[verifier::type_invariant]
    spec fn inv(self) -> bool {
        PREAMBLE <= self.ptr <= CAPACITY
    }

    /// The fields written so far: the bytes behind the preamble.
    pub closed spec fn payload_bytes(&self) -> Seq<u8> {
        self.payload@.subrange(PREAMBLE as int, self.ptr as int)
    }

    /// The five bytes of the preamble as they stand.
    pub closed spec fn preamble_bytes(&self) -> Seq<u8> {
        self.payload@.subrange(0, PREAMBLE as int)
    }

    /// The sequence number that `write_header` stamps.
    pub closed spec fn sequence(&self) -> usize {
        self.seq
    }

    /// The datagram as it stands: preamble, then payload.
    pub open spec fn message_bytes(&self) -> Seq<u8> {
        self.preamble_bytes() + self.payload_bytes()
    }

    /// The number of bytes that can still be appended.
    pub open spec fn remaining(&self) -> int {
        CAPACITY - PREAMBLE - self.payload_bytes().len()
    }

    /// Whether this buffer is `before` with `bytes` appended to its payload
    /// and nothing else changed.
    pub open spec fn appended(&self, before: &Buffer, bytes: Seq<u8>) -> bool {
        &&& self.payload_bytes() == before.payload_bytes() + bytes
        &&& self.preamble_bytes() == before.preamble_bytes()
        &&& self.sequence() == before.sequence()
    }

    /// The preamble has five bytes, whatever was written.
    pub proof fn lemma_preamble_len(&self)
        ensures
            self.preamble_bytes().len() == PREAMBLE,
            self.message_bytes().len() == PREAMBLE + self.payload_bytes().len(),
    {
    }

    /// The number of bytes that can still be appended.
    pub fn room(&self) -> (n: usize)
        ensures
            n == self.remaining(),
            n <= CAPACITY - PREAMBLE,
    {
        proof {
            use_type_invariant(self);
        }
        CAPACITY - self.ptr
    }

    /// Sets the sequence number that `write_header` stamps.
    pub fn set_sequence(&mut self, seq: usize)
        ensures
            final(self).sequence() == seq,
            final(self).payload_bytes() == old(self).payload_bytes(),
            final(self).preamble_bytes() == old(self).preamble_bytes(),
    {
        proof {
            use_type_invariant(&*self);
        }
        self.seq = seq;
    }

    /// Appends one byte.
    pub fn write_byte(&mut self, byte: u8)
        requires
            old(self).remaining() >= 1,
        ensures
            final(self).appended(old(self), seq![byte]),
    {
        proof {
            use_type_invariant(&*self);
        }
        self.payload[self.ptr] = byte;
        self.ptr += 1;
        assert(self.payload_bytes() =~= old(self).payload_bytes() + seq![byte]);
        assert(self.preamble_bytes() =~= old(self).preamble_bytes());
    }

    /// Appends a 32-bit word, lowest byte first.
    fn write_word(&mut self, word: u32)
        requires
            old(self).remaining() >= 4,
        ensures
            final(self).appended(old(self), le_bytes(word)),
    {
        self.write_byte((word % 256) as u8);
        self.write_byte((word / 256 % 256) as u8);
        self.write_byte((word / 65536 % 256) as u8);
        self.write_byte((word / 16777216) as u8);
        assert(self.payload_bytes() =~= old(self).payload_bytes() + le_bytes(word));
    }

    /// Appends a string: the length prefix of its UTF-8 form, then the bytes.
    pub fn write_string(&mut self, string: &str)
        requires
            old(self).remaining() >= encode_string(string@).len(),
        ensures
            final(self).appended(old(self), encode_string(string@)),
    {
        let bytes = string.as_bytes();
        let ghost before = *self;
        let ghost total = bytes@.len();
        let ghost written = Seq::<u8>::empty();
        let mut size: usize = bytes.len();
        assert(self.payload_bytes() =~= before.payload_bytes() + written);
        while size >= 0x80
            invariant
                self.appended(&before, written),
                written + varint(size as nat) == varint(total),
                before.remaining() >= varint(total).len() + total,
            decreases size,
        {
            proof {
                crate::wire::lemma_varint_len((size / 128) as nat);
            }
            let byte = to_byte(size % 128 + 128);
            self.write_byte(byte);
            proof {
                assert(varint(size as nat) == seq![byte] + varint((size / 128) as nat));
                assert(written + seq![byte] + varint((size / 128) as nat) =~= written + varint(
                    size as nat,
                ));
                assert(self.payload_bytes() =~= before.payload_bytes() + (written + seq![byte]));
                written = written + seq![byte];
            }
            size = size / 128;
        }
        let last = to_byte(size);
        self.write_byte(last);
        proof {
            assert(varint(size as nat) == seq![last]);
            assert(self.payload_bytes() =~= before.payload_bytes() + varint(total));
        }
        let mut i: usize = 0;
        while i < bytes.len()
            invariant
                i <= bytes.len(),
                bytes@.len() == total,
                self.appended(&before, varint(total) + bytes@.take(i as int)),
                before.remaining() >= varint(total).len() + total,
            decreases bytes.len() - i,
        {
            self.write_byte(bytes[i]);
            assert(self.payload_bytes() =~= before.payload_bytes() + (varint(total) + bytes@.take(
                i + 1,
            )));
            i += 1;
        }
        assert(bytes@.take(bytes@.len() as int) =~= bytes@);
    }

    /// Appends a signed 32-bit integer.
    pub fn write_i32(&mut self, num: &i32)
        requires
            old(self).remaining() >= 4,
        ensures
            final(self).appended(old(self), encode_i32(*num)),
    {
        let value: i32 = *num;
        let bits: u32 = if value >= 0 {
            value as u32
        } else {
            (value as i64 + 0x1_0000_0000) as u32
        };
        self.write_word(bits);
    }

    /// Appends a single-precision number, given by its IEEE-754 bit pattern.
    pub fn write_f32(&mut self, num: u32)
        requires
            old(self).remaining() >= 4,
        ensures
            final(self).appended(old(self), le_bytes(num)),
    {
        self.write_word(num);
    }

    /// Appends a flag: one byte, 1 for `true` and 0 for `false`.
    pub fn write_bool(&mut self, statement: bool)
        requires
            old(self).remaining() >= 1,
        ensures
            final(self).appended(old(self), encode_bool(statement)),
    {
        self.write_byte(if statement { 1 } else { 0 });
    }

    /// Appends an identity: its length as a 32-bit integer, then its bytes.
    pub fn write_guid(&mut self, guid: &Vec<u8>)
        requires
            old(self).remaining() >= encode_guid(guid@).len(),
        ensures
            final(self).appended(old(self), encode_guid(guid@)),
    {
        let ghost before = *self;
        let size: i32 = guid.len() as i32;
        self.write_i32(&size);
        let mut i: usize = 0;
        while i < guid.len()
            invariant
                i <= guid.len(),
                self.appended(&before, encode_i32(guid@.len() as i32) + guid@.take(i as int)),
                before.remaining() >= 4 + guid@.len(),
            decreases guid.len() - i,
        {
            self.write_byte(guid[i]);
            assert(self.payload_bytes() =~= before.payload_bytes() + (encode_i32(
                guid@.len() as i32,
            ) + guid@.take(i + 1)));
            i += 1;
        }
        assert(guid@.take(guid@.len() as int) =~= guid@);
    }

    /// Appends a clock reading: seconds as a single-precision number, given
    /// by its IEEE-754 bit pattern.
    pub fn write_time(&mut self, seconds: u32)
        requires
            old(self).remaining() >= 4,
        ensures
            final(self).appended(old(self), le_bytes(seconds)),
    {
        self.write_f32(seconds);
    }

    /// Appends the byte that announces a game frame.
    pub fn write_game_header(&mut self, header: GameHeader)
        requires
            old(self).remaining() >= 1,
        ensures
            final(self).appended(old(self), seq![header.spec_code()]),
    {
        self.write_byte(header.code());
    }

    /// Appends three single-precision numbers.
    pub fn write_vec3(&mut self, vector: &[u32; 3])
        requires
            old(self).remaining() >= 12,
        ensures
            final(self).appended(old(self), encode_vec3(vector@)),
    {
        self.write_f32(vector[0]);
        self.write_f32(vector[1]);
        self.write_f32(vector[2]);
        assert(self.payload_bytes() =~= old(self).payload_bytes() + encode_vec3(vector@));
    }

    /// Appends four single-precision numbers.
    pub fn write_vec4(&mut self, vector: &[u32; 4])
        requires
            old(self).remaining() >= 16,
        ensures
            final(self).appended(old(self), encode_vec4(vector@)),
    {
        self.write_f32(vector[0]);
        self.write_f32(vector[1]);
        self.write_f32(vector[2]);
        self.write_f32(vector[3]);
        assert(self.payload_bytes() =~= old(self).payload_bytes() + encode_vec4(vector@));
    }

    /// Appends a client list: the count, then identity and name of each
    /// client in the order stored.
    pub fn write_clients(&mut self, clients: &Vec<Client>)
        requires
            old(self).remaining() >= encode_clients(client_views(clients@)).len(),
        ensures
            final(self).appended(old(self), encode_clients(client_views(clients@))),
    {
        let ghost before = *self;
        let ghost views = client_views(clients@);
        let count: i32 = clients.len() as i32;
        self.write_i32(&count);
        let mut i: usize = 0;
        assert(encode_client_entries(views.take(0)) =~= Seq::<u8>::empty());
        assert(self.payload_bytes() =~= before.payload_bytes() + (encode_i32(count)
            + encode_client_entries(views.take(0))));
        while i < clients.len()
            invariant
                i <= clients.len(),
                views == client_views(clients@),
                count == clients@.len() as i32,
                self.appended(&before, encode_i32(count) + encode_client_entries(views.take(i as int))),
                before.remaining() >= 4 + encode_client_entries(views).len(),
            decreases clients.len() - i,
        {
            proof {
                assert(views.take(i + 1).drop_last() =~= views.take(i as int));
                assert(views.take(i + 1).last() == clients@[i as int]@);
                crate::wire::lemma_client_entries_prefix(views, i + 1);
            }
            self.write_guid(&clients[i].guid);
            self.write_string(clients[i].name.as_str());
            assert(self.payload_bytes() =~= before.payload_bytes() + (encode_i32(count)
                + encode_client_entries(views.take(i + 1))));
            i += 1;
        }
        assert(views.take(clients@.len() as int) =~= views);
    }

    /// Appends a player list: the count, then identity, controller slot,
    /// ready flag and character of each player in the order stored.
    pub fn write_players(&mut self, players: &Vec<Player>)
        requires
            old(self).remaining() >= encode_players(player_views(players@)).len(),
        ensures
            final(self).appended(old(self), encode_players(player_views(players@))),
    {
        let ghost before = *self;
        let ghost views = player_views(players@);
        let count: i32 = players.len() as i32;
        self.write_i32(&count);
        let mut i: usize = 0;
        assert(encode_player_entries(views.take(0)) =~= Seq::<u8>::empty());
        assert(self.payload_bytes() =~= before.payload_bytes() + (encode_i32(count)
            + encode_player_entries(views.take(0))));
        while i < players.len()
            invariant
                i <= players.len(),
                views == player_views(players@),
                count == players@.len() as i32,
                self.appended(&before, encode_i32(count) + encode_player_entries(views.take(i as int))),
                before.remaining() >= 4 + encode_player_entries(views).len(),
            decreases players.len() - i,
        {
            proof {
                assert(views.take(i + 1).drop_last() =~= views.take(i as int));
                assert(views.take(i + 1).last() == players@[i as int]@);
                crate::wire::lemma_player_entries_prefix(views, i + 1);
            }
            let player = &players[i];
            self.write_guid(&player.guid);
            self.write_i32(&player.ctrl_type);
            self.write_bool(player.ready_to_race);
            self.write_i32(&player.char_id);
            assert(self.payload_bytes() =~= before.payload_bytes() + (encode_i32(count)
                + encode_player_entries(views.take(i + 1))));
            i += 1;
        }
        assert(views.take(players@.len() as int) =~= views);
    }

    /// Appends match settings: the nine fields in the order in which they
    /// are declared.
    pub fn write_settings(&mut self, setting: &MatchConfig)
        requires
            old(self).remaining() >= 36,
        ensures
            final(self).appended(old(self), encode_settings(*setting)),
    {
        self.write_i32(&setting.stage_id);
        self.write_i32(&setting.laps);
        self.write_i32(&setting.ai_count);
        self.write_i32(&setting.ai_skill);
        self.write_i32(&setting.auto_start_time);
        self.write_i32(&setting.auto_start_min_players);
        self.write_i32(&setting.auto_return_time);
        self.write_f32(setting.vote_ratio);
        self.write_i32(&setting.stage_rotation_mode);
        assert(self.payload_bytes() =~= old(self).payload_bytes() + encode_settings(*setting));
    }

    /// Appends a movement record: identity, controller byte, then position,
    /// rotation, velocity, angular velocity and direction. A record names a
    /// controller; `Unassigned` is not written.
    pub fn write_player_position(&mut self, player: &PlayerPosition)
        requires
            player.ctrl_type != CtrlType::Unassigned,
            old(self).remaining() >= encode_player_position(player@).len(),
        ensures
            final(self).appended(old(self), encode_player_position(player@)),
    {
        let ghost start = old(self).payload_bytes();
        let ghost view = player@;
        self.write_guid(&player.guid);
        self.write_byte(player.ctrl_type.byte());
        let ghost head = encode_guid(view.guid) + seq![view.ctrl_type.spec_byte()];
        assert(self.payload_bytes() =~= start + head);
        self.write_vec3(&player.position);
        self.write_vec4(&player.rotation);
        let ghost middle = head + encode_vec3(view.position) + encode_vec4(view.rotation);
        assert(self.payload_bytes() =~= start + middle);
        self.write_vec3(&player.velocity);
        self.write_vec3(&player.angular_velocity);
        self.write_vec3(&player.direction);
        assert(self.payload_bytes() =~= start + (middle + encode_vec3(view.velocity)
            + encode_vec3(view.angular_velocity) + encode_vec3(view.direction)));
    }

    /// Appends the textual form `json` of the message `email` as a string,
    /// with the bare variant name widened to its qualified form.
    pub fn write_json(&mut self, email: &MessageTypes, json: String)
        requires
            old(self).remaining() >= encode_string(qualified(json@, email.spec_name())).len(),
        ensures
            final(self).appended(old(self), encode_string(qualified(json@, email.spec_name()))),
    {
        let substring = email.as_string();
        let json = sharpize(json, substring);
        self.write_string(json.as_str());
    }

    /// Writes the preamble: the message class, the buffer's sequence number
    /// and the length of the payload in bits. Payload written afterwards
    /// is not counted.
    pub fn write_header(&mut self, header: Header)
        requires
            header.wf(),
        ensures
            final(self).preamble_bytes() == preamble(
                header.spec_code(),
                old(self).sequence() as int,
                old(self).payload_bytes().len() as int,
            ),
            final(self).payload_bytes() == old(self).payload_bytes(),
            final(self).sequence() == old(self).sequence(),
    {
        proof {
            use_type_invariant(&*self);
        }
        self.payload[0] = header.code();
        self.payload[1] = to_byte(self.seq % 128 * 2);
        self.payload[2] = to_byte(self.seq / 128);
        let bits: usize = (self.ptr - 5) * 8;
        self.payload[3] = to_byte(bits);
        self.payload[4] = to_byte(bits / 256);
        assert(self.preamble_bytes() =~= preamble(
            header.spec_code(),
            old(self).sequence() as int,
            old(self).payload_bytes().len() as int,
        ));
        assert(self.payload_bytes() =~= old(self).payload_bytes());
    }

    /// Overwrites the sequence number in the preamble with `counter` and
    /// touches nothing else.
    pub fn seq(&mut self, counter: usize)
        ensures
            final(self).preamble_bytes() == restamped(old(self).preamble_bytes(), counter as int),
            final(self).message_bytes() == restamped(old(self).message_bytes(), counter as int),
            final(self).payload_bytes() == old(self).payload_bytes(),
            final(self).sequence() == old(self).sequence(),
    {
        proof {
            use_type_invariant(&*self);
        }
        self.payload[1] = to_byte(counter % 128 * 2);
        self.payload[2] = to_byte(counter / 128);
        assert(self.payload_bytes() =~= old(self).payload_bytes());
        assert(self.preamble_bytes() =~= restamped(old(self).preamble_bytes(), counter as int));
        assert(self.message_bytes() =~= restamped(old(self).message_bytes(), counter as int));
    }

    /// The datagram as it stands: the preamble and the payload written so
    /// far, without the unused rest of the region.
    pub fn message(&self) -> (datagram: Vec<u8>)
        ensures
            datagram@ == self.message_bytes(),
            datagram@.len() == PREAMBLE + self.payload_bytes().len(),
    {
        proof {
            use_type_invariant(self);
        }
        let mut datagram: Vec<u8> = Vec::with_capacity(self.ptr);
        let mut i: usize = 0;
        while i < self.ptr
            invariant
                i <= self.ptr <= CAPACITY,
                datagram@ == self.payload@.take(i as int),
            decreases self.ptr - i,
        {
            datagram.push(self.payload[i]);
            assert(datagram@ =~= self.payload@.take(i + 1));
            i += 1;
        }
        assert(datagram@ =~= self.message_bytes());
        datagram
    }
}

impl Default for Buffer {
    /// An empty payload behind a preamble of zeros, with sequence number 0.
    fn default() -> (buffer: Buffer)
        ensures
            buffer.payload_bytes() == Seq::<u8>::empty(),
            buffer.preamble_bytes() == seq![0u8, 0u8, 0u8, 0u8, 0u8],
            buffer.sequence() == 0,
    {
        let buffer = Buffer { payload: [0;1500], ptr: 5, seq: 0 };
        assert(buffer.payload_bytes() =~= Seq::<u8>::empty());
        assert(buffer.preamble_bytes() =~= seq![0u8, 0u8, 0u8, 0u8, 0u8]);
        buffer
    }
}

/// The prefix that widens a bare variant name to its qualified form.
pub open spec fn qualified_prefix() -> Seq<char> {
    "SanicballCore.MatchMessages."@
}

/// The suffix that widens a bare variant name to its qualified form.
pub open spec fn qualified_suffix() -> Seq<char> {
    ", SanicballCore"@
}

/// The key of the discriminator with the quote that opens its value, as
/// they stand in the compact textual form of a message.
pub open spec fn discriminator_key() -> Seq<char> {
    "\"$type\":\""@
}

/// The discriminator with value `value`: the key, the value, the closing quote.
pub open spec fn discriminator(value: Seq<char>) -> Seq<char> {
    discriminator_key() + value + seq!['"']
}

/// `json` with the value of its discriminator, where that is the bare name
/// `name`, wrapped in the qualifying prefix and suffix, and every other
/// character unchanged; `json` itself where it has no discriminator with
/// that value. Of several, the first is the message's own.
pub open spec fn qualified(json: Seq<char>, name: Seq<char>) -> Seq<char> {
    replace_first(
        json,
        discriminator(name),
        discriminator(qualified_prefix() + name + qualified_suffix()),
    )
}

/// Turns the textual form of a message into the form that the peer reads:
/// the value of the discriminator, where it is `substring`, the bare variant
/// name, is wrapped in the qualifying prefix and suffix. Nothing else changes.
pub fn sharpize(json: String, substring: &str) -> (result: String)
    ensures
        result@ == qualified(json@, substring@),
{
    let name = chars_of(substring);
    let key = chars_of("\"$type\":\"");
    let prefix = chars_of("SanicballCore.MatchMessages.");
    let suffix = chars_of(", SanicballCore");
    let mut bare: Vec<char> = Vec::new();
    extend(&mut bare, &key, 0, key.len());
    extend(&mut bare, &name, 0, name.len());
    bare.push('"');
    let mut wide: Vec<char> = Vec::new();
    extend(&mut wide, &key, 0, key.len());
    extend(&mut wide, &prefix, 0, prefix.len());
    extend(&mut wide, &name, 0, name.len());
    extend(&mut wide, &suffix, 0, suffix.len());
    wide.push('"');
    proof {
        assert(key@.subrange(0, key@.len() as int) =~= key@);
        assert(name@.subrange(0, name@.len() as int) =~= name@);
        assert(prefix@.subrange(0, prefix@.len() as int) =~= prefix@);
        assert(suffix@.subrange(0, suffix@.len() as int) =~= suffix@);
        assert(bare@ =~= discriminator(name@));
        assert(wide@ =~= discriminator(qualified_prefix() + name@ + qualified_suffix()));
    }
    let text = chars_of(json.as_str());
    string_of(&replace(&text, &bare, &wide))
}

} // verus!
