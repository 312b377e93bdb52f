//! The connection and match state machine: what the relay does with one
//! decoded datagram, and what it does when its timers run out.
use crate::buffer::Buffer;
use crate::data::{
    client_views, player_views, Client, ClientView, Clock, Endpoint, MatchConfig, Motd, Player,
    PlayerView, ServerConfig, Stopwatch, Timer,
};
use crate::errors::DecodeError;
use crate::game::{ChatMessageType, GameHeader, MessageTypes, MessageView};
use crate::guid::{guid_bytes, guid_to_vec, is_guid_text};
use crate::headers::{preamble, restamped, Header, CAPACITY, PREAMBLE};
use crate::stream::Stream;
use crate::wire::{
    clients_size, decode_byte, decode_game_header, decode_string, decode_u32, decode_vec3,
    encode_bool, encode_clients, encode_i32, encode_players, encode_settings, encode_string,
    le_bytes, parse_byte, parse_game_header, parse_string, parse_u32, parse_vec3, players_size,
    string_size,
};
use vstd::prelude::*;
use vstd::slice::slice_to_vec;
use vstd::string::StringExecFns;

verus! {

/// One addressee of an announcement, and the sequence number to stamp on
/// the datagram that goes to it.
#[derive(Debug, Clone, Copy, PartialEq, Eq, Structural)]
pub struct Recipient {
    pub to: Endpoint,
    pub sequence: usize,
}

/// Something for the caller to put on the wire.
#[derive(Debug, Clone, PartialEq, Eq)]
pub enum Action {
    /// Send `datagram` to `to` as it is.
    Send { to: Endpoint, datagram: Vec<u8> },
    /// Frame `message` as a match-state datagram and send it to every
    /// recipient, stamped with the recipient's sequence number.
    Announce { message: MessageTypes, recipients: Vec<Recipient> },
}

/// What an [`Action`] holds, as plain values.
pub enum ActionView {
    Send { to: Endpoint, datagram: Seq<u8> },
    Announce { message: MessageView, recipients: Seq<Recipient> },
}

impl View for Action {
    type V = ActionView;

    open spec fn view(&self) -> ActionView {
        match self {
            Action::Send { to, datagram } => ActionView::Send { to: *to, datagram: datagram@ },
            Action::Announce { message, recipients } => ActionView::Announce {
                message: message@,
                recipients: recipients@,
            },
        }
    }
}

/// The views of a list of actions, in order.
pub open spec fn action_views(actions: Seq<Action>) -> Seq<ActionView> {
    actions.map_values(|a: Action| a@)
}

/// The relay's state: who is connected, who races, and under which settings.
#[derive(Debug, Clone, PartialEq, Eq)]
pub struct Server {
    pub app_id: String,
    pub config: ServerConfig,
    pub match_settings: MatchConfig,
    pub motd: Motd,
    pub clock: Clock,
    pub clients: Vec<Client>,
    pub players: Vec<Player>,
}

/// What a [`Server`] holds, as plain values.
pub struct ServerView {
    pub app_id: Seq<char>,
    pub config: ServerConfig,
    pub match_settings: MatchConfig,
    pub motd: Seq<char>,
    pub clock: Clock,
    pub clients: Seq<ClientView>,
    pub players: Seq<PlayerView>,
}

impl View for Server {
    type V = ServerView;

    open spec fn view(&self) -> ServerView {
        ServerView {
            app_id: self.app_id@,
            config: self.config,
            match_settings: self.match_settings,
            motd: self.motd.text@,
            clock: self.clock,
            clients: client_views(self.clients@),
            players: player_views(self.players@),
        }
    }
}

/// The position of the first element of `s` that satisfies `pred`.
pub open spec fn first_match<T>(s: Seq<T>, pred: spec_fn(T) -> bool) -> Option<int>
    decreases s.len(),
{
    if s.len() == 0 {
        None
    } else {
        match first_match(s.drop_last(), pred) {
            Some(i) => Some(i),
            None => if pred(s.last()) {
                Some(s.len() - 1)
            } else {
                None
            },
        }
    }
}

/// `first_match` finds an element that satisfies the predicate and has none
/// before it that does, or there is none at all.
pub proof fn lemma_first_match<T>(s: Seq<T>, pred: spec_fn(T) -> bool)
    ensures
        match first_match(s, pred) {
            Some(i) => 0 <= i < s.len() && pred(s[i]) && forall|j: int| 0 <= j < i ==> !pred(s[j]),
            None => forall|j: int| 0 <= j < s.len() ==> !pred(s[j]),
        },
    decreases s.len(),
{
    if s.len() > 0 {
        lemma_first_match(s.drop_last(), pred);
        assert forall|j: int| 0 <= j < s.len() - 1 implies s.drop_last()[j] == s[j] by {}
    }
}

/// An element that satisfies the predicate and has none before it that does
/// is the one that `first_match` finds.
pub proof fn lemma_first_match_is<T>(s: Seq<T>, pred: spec_fn(T) -> bool, i: int)
    requires
        0 <= i < s.len(),
        pred(s[i]),
        forall|j: int| 0 <= j < i ==> !pred(s[j]),
    ensures
        first_match(s, pred) == Some(i),
{
    lemma_first_match(s, pred);
}

/// The client reached at `origin`.
pub open spec fn find_sender(clients: Seq<ClientView>, origin: Endpoint) -> Option<int> {
    first_match(clients, |c: ClientView| c.connection == origin)
}

/// The client with identity `guid`.
pub open spec fn find_client(clients: Seq<ClientView>, guid: Seq<u8>) -> Option<int> {
    first_match(clients, |c: ClientView| c.guid == guid)
}

/// The player with identity `guid` on controller slot `ctrl_type`.
pub open spec fn find_player(players: Seq<PlayerView>, guid: Seq<u8>, ctrl_type: i32) -> Option<
    int,
> {
    first_match(players, |p: PlayerView| p.guid == guid && p.ctrl_type == ctrl_type)
}

/// The counter after one more datagram; it starts again at 0 behind the
/// largest value.
pub open spec fn next_counter(counter: usize) -> usize {
    if counter == usize::MAX {
        0
    } else {
        (counter + 1) as usize
    }
}

/// A datagram: the preamble for `payload`, then `payload`.
pub open spec fn frame(code: u8, sequence: int, payload: Seq<u8>) -> Seq<u8> {
    preamble(code, sequence, payload.len() as int) + payload
}

/// One datagram of class `code` with payload `payload` for every client,
/// each stamped with the client's own counter.
pub open spec fn broadcast(clients: Seq<ClientView>, code: u8, payload: Seq<u8>) -> Seq<
    ActionView,
> {
    Seq::new(
        clients.len(),
        |i: int|
            ActionView::Send {
                to: clients[i].connection,
                datagram: frame(code, clients[i].counter as int, payload),
            },
    )
}

/// The clients after one datagram went to each: every counter one further.
pub open spec fn bumped(clients: Seq<ClientView>) -> Seq<ClientView> {
    clients.map_values(|c: ClientView| ClientView { counter: next_counter(c.counter), ..c })
}

/// Every client as a recipient: stamped with its own counter, or with 0.
pub open spec fn recipients_of(clients: Seq<ClientView>, stamped: bool) -> Seq<Recipient> {
    Seq::new(
        clients.len(),
        |i: int|
            Recipient {
                to: clients[i].connection,
                sequence: if stamped {
                    clients[i].counter
                } else {
                    0
                },
            },
    )
}

/// A chat line from the server.
pub open spec fn server_chat(text: Seq<char>) -> MessageView {
    MessageView::ChatMessage { from: "Server"@, kind: ChatMessageType::System, text }
}

/// What a game-state message did to the roster.
#[derive(Debug, Clone, Copy, PartialEq, Eq, Structural)]
pub enum Effect {
    /// The roster, the settings or a timer changed as the message asks.
    Applied,
    /// The message is of a kind that is relayed and changes nothing.
    Accepted,
    /// The message names a player that is not in the roster; nothing changed
    /// but what the message does before it looks the player up.
    UnknownPlayer,
    /// The message names a client that is not in the roster; nothing changed.
    UnknownClient,
    /// The message came from a peer that is no client; nothing changed.
    UnknownSender,
}

/// Why the relay did not do what a datagram asks.
#[derive(Debug, Clone, Copy, PartialEq, Eq, Structural)]
pub enum Fault {
    /// The datagram cannot be decoded and is dropped.
    Decode(DecodeError),
    /// The message is of a kind that the relay does not support yet.
    Unsupported,
    /// The reply does not fit a datagram.
    Overflow,
    /// The datagram is of a class that must not reach the dispatch.
    Unhandled,
}

/// What the relay did with a datagram.
#[derive(Debug, Clone, Copy, PartialEq, Eq, Structural)]
pub enum Note {
    /// Nothing to reply.
    Silent,
    /// A reply went to the sender alone.
    Replied,
    /// A match-state frame was applied and goes to every client. `resynced`
    /// tells whether the sender is a client whose counter was set to follow
    /// the sequence number of its datagram.
    Relayed { effect: Effect, resynced: bool },
    /// A movement frame goes to every client but its sender.
    Forwarded,
}

/// What applying a game-state message gives: the state after it, what to
/// announce, and the effect or the fault.
pub struct Applied {
    pub state: ServerView,
    pub actions: Seq<ActionView>,
    pub result: Result<Effect, Fault>,
}

/// The actions to take for a game-state message, and its effect or fault.
#[derive(Debug, PartialEq, Eq)]
pub struct StateOutcome {
    pub actions: Vec<Action>,
    pub result: Result<Effect, Fault>,
}

/// What `<str as Debug>::fmt` writes for `s`: the text in double quotes,
/// with the characters that cannot stand there escaped.
pub uninterp spec fn debug_text(s: Seq<char>) -> Seq<char>;

/// The line that tells everybody that a client joined, from the quoted name.
pub open spec fn join_text(quoted_name: Seq<char>) -> Seq<char> {
    quoted_name + ", Has Joined The Match"@
}

/// The line that tells a joining client the message of the day.
pub open spec fn motd_text(motd: Seq<char>) -> Seq<char> {
    "Our Message of the day is "@ + motd
}

/// A message refused: nothing changes and nothing is announced.
pub open spec fn refused(pre: ServerView, fault: Fault) -> Applied {
    Applied { state: pre, actions: Seq::empty(), result: Err(fault) }
}

/// A message that changes the state and announces nothing.
pub open spec fn quiet(state: ServerView, effect: Effect) -> Applied {
    Applied { state, actions: Seq::empty(), result: Ok(effect) }
}

/// The state after the player with identity `guid` on slot `ctrl_type` was
/// changed by `change`, or `pre` with the effect `UnknownPlayer` where
/// there is no such player.
pub open spec fn with_player(
    pre: ServerView,
    guid: Seq<u8>,
    ctrl_type: i32,
    change: spec_fn(PlayerView) -> PlayerView,
) -> Applied {
    match find_player(pre.players, guid, ctrl_type) {
        Some(i) => quiet(
            ServerView { players: pre.players.update(i, change(pre.players[i])), ..pre },
            Effect::Applied,
        ),
        None => quiet(pre, Effect::UnknownPlayer),
    }
}

/// What a game-state message from `origin` does at instant `at`.
///
/// A message that carries an identity is refused where the identity is not
/// well-formed. A message about a player that is not in the roster, or
/// about a client that is not, changes nothing beyond what is said below.
///
/// * ready-state changed: the lobby timer is started unless it runs; the
///   player's ready flag is set.
/// * character changed: the player's character is set.
/// * client joined: the client is appended, reached at `origin` with its
///   counter at 0. Announced are the join to every client that was there
///   before, then a welcome and the message of the day to `origin`.
/// * player joined: a player of the named client is appended, not ready and
///   not racing.
/// * player left: the player is removed.
/// * done racing: the player's racing flag is cleared.
/// * settings changed: the settings are replaced.
/// * start race: every player's racing flag is set, if `origin` is a client.
/// * auto-start timer: not supported.
/// * every other kind: accepted without change.
pub open spec fn apply(pre: ServerView, message: MessageView, origin: Endpoint, at: u64) -> Applied {
    match message {
        MessageView::AutoStartTimerMessage { .. } => refused(pre, Fault::Unsupported),
        MessageView::ChangedReadyMessage { client_guid, ctrl_type, ready } => {
            if !is_guid_text(client_guid) {
                refused(pre, Fault::Decode(DecodeError::BadGuid))
            } else {
                with_player(
                    ServerView {
                        clock: Clock { lobby: pre.clock.lobby.started(at), ..pre.clock },
                        ..pre
                    },
                    guid_bytes(client_guid),
                    ctrl_type,
                    |p: PlayerView| PlayerView { ready_to_race: ready, ..p },
                )
            }
        },
        MessageView::CharacterChangedMessage { client_guid, ctrl_type, new_character } => {
            if !is_guid_text(client_guid) {
                refused(pre, Fault::Decode(DecodeError::BadGuid))
            } else {
                with_player(
                    pre,
                    guid_bytes(client_guid),
                    ctrl_type,
                    |p: PlayerView| PlayerView { char_id: new_character, ..p },
                )
            }
        },
        MessageView::ClientJoinedMessage { client_guid, client_name } => {
            if !is_guid_text(client_guid) {
                refused(pre, Fault::Decode(DecodeError::BadGuid))
            } else {
                Applied {
                    state: ServerView {
                        clients: pre.clients.push(
                            ClientView {
                                guid: guid_bytes(client_guid),
                                name: client_name,
                                connection: origin,
                                is_loading: false,
                                wants_lobby: false,
                                counter: 0,
                            },
                        ),
                        ..pre
                    },
                    actions: seq![
                        ActionView::Announce {
                            message: server_chat(join_text(debug_text(client_name))),
                            recipients: recipients_of(pre.clients, false),
                        },
                        ActionView::Announce {
                            message: server_chat("Welcome"@),
                            recipients: seq![Recipient { to: origin, sequence: 0 }],
                        },
                        ActionView::Announce {
                            message: server_chat(motd_text(pre.motd)),
                            recipients: seq![Recipient { to: origin, sequence: 0 }],
                        },
                    ],
                    result: Ok(Effect::Applied),
                }
            }
        },
        MessageView::DoneRacingMessage { client_guid, ctrl_type, .. } => {
            if !is_guid_text(client_guid) {
                refused(pre, Fault::Decode(DecodeError::BadGuid))
            } else {
                with_player(
                    pre,
                    guid_bytes(client_guid),
                    ctrl_type,
                    |p: PlayerView| PlayerView { is_racing: false, ..p },
                )
            }
        },
        MessageView::PlayerJoinedMessage { client_guid, ctrl_type, initial_character } => {
            if !is_guid_text(client_guid) {
                refused(pre, Fault::Decode(DecodeError::BadGuid))
            } else if find_client(pre.clients, guid_bytes(client_guid)) is None {
                quiet(pre, Effect::UnknownClient)
            } else {
                quiet(
                    ServerView {
                        players: pre.players.push(
                            PlayerView {
                                guid: guid_bytes(client_guid),
                                ctrl_type,
                                char_id: initial_character,
                                ready_to_race: false,
                                is_racing: false,
                                has_timed_out: false,
                            },
                        ),
                        ..pre
                    },
                    Effect::Applied,
                )
            }
        },
        MessageView::PlayerLeftMessage { client_guid, ctrl_type } => {
            if !is_guid_text(client_guid) {
                refused(pre, Fault::Decode(DecodeError::BadGuid))
            } else {
                match find_player(pre.players, guid_bytes(client_guid), ctrl_type) {
                    Some(i) => quiet(
                        ServerView { players: pre.players.remove(i), ..pre },
                        Effect::Applied,
                    ),
                    None => quiet(pre, Effect::UnknownPlayer),
                }
            }
        },
        MessageView::SettingsChanged { new_match_settings } => quiet(
            ServerView { match_settings: new_match_settings, ..pre },
            Effect::Applied,
        ),
        MessageView::StartRaceMessage {  } => {
            if find_sender(pre.clients, origin) is None {
                quiet(pre, Effect::UnknownSender)
            } else {
                quiet(
                    ServerView {
                        players: pre.players.map_values(
                            |p: PlayerView| PlayerView { is_racing: true, ..p },
                        ),
                        ..pre
                    },
                    Effect::Applied,
                )
            }
        },
        _ => quiet(pre, Effect::Accepted),
    }
}

/// What handling a datagram gives: the state after it, what to put on the
/// wire, and what was done or why not.
pub struct Response {
    pub state: ServerView,
    pub actions: Seq<ActionView>,
    pub result: Result<Note, Fault>,
}

/// The actions to take for a datagram, and what was done or why not.
#[derive(Debug, PartialEq, Eq)]
pub struct Outcome {
    pub actions: Vec<Action>,
    pub result: Result<Note, Fault>,
}

/// Whether a payload fits a datagram.
pub open spec fn fits(payload: Seq<u8>) -> bool {
    payload.len() <= CAPACITY - PREAMBLE
}

/// The views of an optional message.
pub open spec fn decoded_view(decoded: Option<MessageTypes>) -> Option<MessageView> {
    match decoded {
        Some(message) => Some(message@),
        None => None,
    }
}

/// The acknowledgment of a datagram: its class byte, then its sequence
/// number, low byte first.
pub open spec fn ack_datagram(header_byte: u8, sequence: u16) -> Seq<u8> {
    frame(
        Header::Acknowledge.spec_code(),
        0,
        seq![header_byte, (sequence % 256) as u8, (sequence / 256) as u8],
    )
}

/// The payload that tells a new peer the state of the match: the frame
/// code, the client list, the player list, the settings, "no race in
/// progress" and the countdown value 67.
pub open spec fn init_payload(pre: ServerView) -> Seq<u8> {
    seq![GameHeader::InitMessage.spec_code()] + encode_clients(pre.clients) + encode_players(
        pre.players,
    ) + encode_settings(pre.match_settings) + encode_bool(false) + encode_i32(67)
}

/// The payload of a match-state frame: the frame code, the clock reading,
/// the message text.
pub open spec fn match_payload(stamp: u32, json: Seq<char>) -> Seq<u8> {
    seq![GameHeader::MatchMessage.spec_code()] + le_bytes(stamp) + encode_string(json)
}

/// The payload of a movement frame: the frame code, the clock reading, the
/// record as it came.
pub open spec fn movement_payload(stamp: u32, record: Seq<u8>) -> Seq<u8> {
    seq![GameHeader::PlayerMovementMessage.spec_code()] + le_bytes(stamp) + record
}

/// A datagram dropped after `actions`.
pub open spec fn dropped(pre: ServerView, actions: Seq<ActionView>, e: DecodeError) -> Response {
    Response { state: pre, actions, result: Err(Fault::Decode(e)) }
}

/// The answer to a ping: the token and the clock reading, to the sender.
pub open spec fn respond_ping(pre: ServerView, stream: Stream, stamp: u32) -> Response {
    match parse_byte(stream.data@, stream.cursor()) {
        Ok((token, _)) => Response {
            state: pre,
            actions: seq![
                ActionView::Send {
                    to: stream.origin,
                    datagram: frame(Header::Pong.spec_code(), 0, seq![token] + le_bytes(stamp)),
                },
            ],
            result: Ok(Note::Replied),
        },
        Err(e) => dropped(pre, Seq::empty(), e),
    }
}

/// The answer to a connect request, which carries the peer's application
/// identifier and three numbers: the server's own identifier, to the sender.
pub open spec fn respond_connect(pre: ServerView, stream: Stream) -> Response {
    match parse_string(stream.data@, stream.cursor()) {
        Ok((_, next)) => match parse_vec3(stream.data@, next) {
            Ok(_) => if fits(encode_string(pre.app_id)) {
                Response {
                    state: pre,
                    actions: seq![
                        ActionView::Send {
                            to: stream.origin,
                            datagram: frame(
                                Header::ConnectResponse.spec_code(),
                                0,
                                encode_string(pre.app_id),
                            ),
                        },
                    ],
                    result: Ok(Note::Replied),
                }
            } else {
                Response { state: pre, actions: Seq::empty(), result: Err(Fault::Overflow) }
            },
            Err(e) => dropped(pre, Seq::empty(), e),
        },
        Err(e) => dropped(pre, Seq::empty(), e),
    }
}

/// The answer to an established connection, which carries one number: the
/// state of the match, reliably ordered, to the sender.
pub open spec fn respond_established(pre: ServerView, stream: Stream) -> Response {
    match parse_u32(stream.data@, stream.cursor()) {
        Ok(_) => if fits(init_payload(pre)) {
            Response {
                state: pre,
                actions: seq![
                    ActionView::Send {
                        to: stream.origin,
                        datagram: frame(
                            (Header::UserReliableOrdered { channel: 0 }).spec_code(),
                            0,
                            init_payload(pre),
                        ),
                    },
                ],
                result: Ok(Note::Replied),
            }
        } else {
            Response { state: pre, actions: Seq::empty(), result: Err(Fault::Overflow) }
        },
        Err(e) => dropped(pre, Seq::empty(), e),
    }
}

/// The clients after the counter of the client reached at `origin`, if there
/// is one, was set to follow `sequence`.
pub open spec fn resynced(clients: Seq<ClientView>, origin: Endpoint, sequence: u16) -> Seq<
    ClientView,
> {
    match find_sender(clients, origin) {
        Some(i) => clients.update(
            i,
            ClientView { counter: (sequence + 1) as usize, ..clients[i] },
        ),
        None => clients,
    }
}

/// The identity of the client reached at `origin`; empty if there is none.
pub open spec fn sender_guid(clients: Seq<ClientView>, origin: Endpoint) -> Seq<u8> {
    match find_sender(clients, origin) {
        Some(i) => clients[i].guid,
        None => Seq::empty(),
    }
}

/// `datagram` for every client whose identity is not `skip`, in roster order.
pub open spec fn forwards(clients: Seq<ClientView>, skip: Seq<u8>, datagram: Seq<u8>) -> Seq<
    ActionView,
>
    decreases clients.len(),
{
    if clients.len() == 0 {
        Seq::empty()
    } else if clients.last().guid == skip {
        forwards(clients.drop_last(), skip, datagram)
    } else {
        forwards(clients.drop_last(), skip, datagram).push(
            ActionView::Send { to: clients.last().connection, datagram },
        )
    }
}

/// What a match-state frame does, read from position `at` behind the frame
/// code: the clock reading is skipped, the message text is framed again
/// with the server's clock reading, the decoded message is applied, the
/// sender's counter is set to follow the sequence number of its datagram,
/// and the frame goes to every client, behind the acknowledgment and what
/// the message announces. A frame whose text was not decoded is dropped.
pub open spec fn relay_match(
    pre: ServerView,
    stream: Stream,
    at: int,
    decoded: Option<MessageView>,
    now: u64,
    stamp: u32,
) -> Response {
    let ack = ActionView::Send {
        to: stream.origin,
        datagram: ack_datagram(stream.header_byte, stream.sequence),
    };
    match parse_u32(stream.data@, at) {
        Ok((_, next)) => match parse_string(stream.data@, next) {
            Ok((json, _)) => if !fits(match_payload(stamp, json)) {
                Response { state: pre, actions: seq![ack], result: Err(Fault::Overflow) }
            } else {
                match decoded {
                    Some(message) => {
                        let applied = apply(pre, message, stream.origin, now);
                        match applied.result {
                            Ok(effect) => {
                                let synced = resynced(
                                    applied.state.clients,
                                    stream.origin,
                                    stream.sequence,
                                );
                                Response {
                                    state: ServerView { clients: bumped(synced), ..applied.state },
                                    actions: seq![ack] + applied.actions + broadcast(
                                        synced,
                                        (Header::UserReliableOrdered { channel: 0 }).spec_code(),
                                        match_payload(stamp, json),
                                    ),
                                    result: Ok(
                                        Note::Relayed {
                                            effect,
                                            resynced: find_sender(
                                                applied.state.clients,
                                                stream.origin,
                                            ) is Some,
                                        },
                                    ),
                                }
                            },
                            Err(fault) => Response {
                                state: applied.state,
                                actions: seq![ack],
                                result: Err(fault),
                            },
                        }
                    },
                    None => dropped(pre, seq![ack], DecodeError::BadMessage),
                }
            },
            Err(e) => dropped(pre, seq![ack], e),
        },
        Err(e) => dropped(pre, seq![ack], e),
    }
}

/// What a movement frame does, read from position `at` behind the frame
/// code: the clock reading is replaced by the server's, the record is left
/// as it is, and the frame goes to every client but the sender's own.
pub open spec fn relay_movement(pre: ServerView, stream: Stream, at: int, stamp: u32) -> Response {
    let ack = ActionView::Send {
        to: stream.origin,
        datagram: ack_datagram(stream.header_byte, stream.sequence),
    };
    match parse_u32(stream.data@, at) {
        Ok((_, next)) => {
            let payload = movement_payload(
                stamp,
                stream.data@.subrange(next, stream.data@.len() as int),
            );
            if fits(payload) {
                Response {
                    state: pre,
                    actions: seq![ack] + forwards(
                        pre.clients,
                        sender_guid(pre.clients, stream.origin),
                        frame(Header::UserUnreliable.spec_code(), 0, payload),
                    ),
                    result: Ok(Note::Forwarded),
                }
            } else {
                Response { state: pre, actions: seq![ack], result: Err(Fault::Overflow) }
            }
        },
        Err(e) => dropped(pre, seq![ack], e),
    }
}

/// What a user datagram does: it is acknowledged, then its game frame is
/// relayed. A frame that only the server may send is dropped.
pub open spec fn relay(
    pre: ServerView,
    stream: Stream,
    decoded: Option<MessageView>,
    now: u64,
    stamp: u32,
) -> Response {
    let ack = ActionView::Send {
        to: stream.origin,
        datagram: ack_datagram(stream.header_byte, stream.sequence),
    };
    match parse_game_header(stream.data@, stream.cursor()) {
        Ok((GameHeader::MatchMessage, next)) => relay_match(
            pre,
            stream,
            next,
            decoded,
            now,
            stamp,
        ),
        Ok((GameHeader::InitMessage, _)) => dropped(pre, seq![ack], DecodeError::UnexpectedInit),
        Ok((GameHeader::PlayerMovementMessage, next)) => relay_movement(pre, stream, next, stamp),
        Err(e) => dropped(pre, seq![ack], e),
    }
}

/// What a datagram does to the server at instant `now`, where `decoded` is
/// the message that its text stands for, if it is a match-state frame whose
/// text stands for one, and `stamp` is the server's clock reading.
///
/// A datagram whose class is not accepted is dropped. An acknowledgment
/// needs no reply. Ping, connect and established connection are answered to
/// the sender. User data is acknowledged and relayed. Any other class must
/// not arrive here.
pub open spec fn respond(
    pre: ServerView,
    stream: Stream,
    decoded: Option<MessageView>,
    now: u64,
    stamp: u32,
) -> Response {
    match stream.header {
        Err(e) => dropped(pre, Seq::empty(), e),
        Ok(Header::Acknowledge) => Response {
            state: pre,
            actions: Seq::empty(),
            result: Ok(Note::Silent),
        },
        Ok(Header::Ping) => respond_ping(pre, stream, stamp),
        Ok(Header::Connect) => respond_connect(pre, stream),
        Ok(Header::ConnectionEstablished) => respond_established(pre, stream),
        Ok(Header::UserReliableOrdered { .. }) => relay(pre, stream, decoded, now, stamp),
        Ok(Header::UserUnreliable) => relay(pre, stream, decoded, now, stamp),
        Ok(_) => Response { state: pre, actions: Seq::empty(), result: Err(Fault::Unhandled) },
    }
}

/// Whether a datagram of this class carries a game frame.
pub open spec fn is_user_data(header: Result<Header, DecodeError>) -> bool {
    header matches Ok(class) && (class is UserReliableOrdered || class is UserUnreliable)
}

/// The text of the message in a datagram, with a bare variant name in its
/// discriminator: there is one where the datagram is user data that holds a
/// match-state frame whose clock reading and text can be read.
pub open spec fn frame_text(stream: Stream) -> Option<Seq<char>> {
    if !is_user_data(stream.header) {
        None
    } else {
        match parse_game_header(stream.data@, stream.cursor()) {
            Ok((GameHeader::MatchMessage, next)) => match parse_u32(stream.data@, next) {
                Ok((_, text)) => match parse_string(stream.data@, text) {
                    Ok((json, _)) => Some(crate::unqualified(json)),
                    Err(_) => None,
                },
                Err(_) => None,
            },
            _ => None,
        }
    }
}

/// The text of the message that a datagram carries, ready to be decoded.
pub fn match_text(stream: &Stream) -> (text: Option<String>)
    ensures
        match text {
            Some(t) => frame_text(*stream) == Some(t@),
            None => frame_text(*stream) is None,
        },
{
    match stream.header {
        Ok(Header::UserReliableOrdered { channel }) => {},
        Ok(Header::UserUnreliable) => {},
        _ => {
            return None;
        },
    }
    let next = match decode_game_header(stream.data.as_slice(), stream.ptr) {
        Ok((GameHeader::MatchMessage, next)) => next,
        _ => {
            return None;
        },
    };
    let text = match decode_u32(stream.data.as_slice(), next) {
        Ok((_, text)) => text,
        Err(_) => {
            return None;
        },
    };
    match decode_string(stream.data.as_slice(), text) {
        Ok((json, _)) => Some(crate::oxidize(json)),
        Err(_) => None,
    }
}

/// The lobby timer runs out after three seconds.
pub const LOBBY_DELAY: u64 = 3_000_000_000;

/// The stage-load timer runs out after twenty seconds.
pub const STAGE_LOAD_DELAY: u64 = 20_000_000_000;

/// What a tick gives: the state after it and what to announce.
pub struct Ticked {
    pub state: ServerView,
    pub actions: Seq<ActionView>,
}

/// The first half of a tick: where the lobby timer has run for longer than
/// its delay, it is reset, the stage-load timer is started and the loading
/// of the race is announced to every client.
pub open spec fn tick_lobby(pre: ServerView, now: u64) -> Ticked {
    if pre.clock.lobby.timed_out(LOBBY_DELAY, now) {
        Ticked {
            state: ServerView {
                clock: Clock {
                    lobby: Timer::cleared(now),
                    stage_load_timeout: pre.clock.stage_load_timeout.started(now),
                    ..pre.clock
                },
                clients: bumped(pre.clients),
                ..pre
            },
            actions: seq![
                ActionView::Announce {
                    message: MessageView::LoadRaceMessage {  },
                    recipients: recipients_of(pre.clients, true),
                },
            ],
        }
    } else {
        Ticked { state: pre, actions: Seq::empty() }
    }
}

/// The second half of a tick: where the stage-load timer has run for longer
/// than its delay, it is reset and the start of the race is announced to
/// every client.
pub open spec fn tick_stage(pre: ServerView, now: u64) -> Ticked {
    if pre.clock.stage_load_timeout.timed_out(STAGE_LOAD_DELAY, now) {
        Ticked {
            state: ServerView {
                clock: Clock { stage_load_timeout: Timer::cleared(now), ..pre.clock },
                clients: bumped(pre.clients),
                ..pre
            },
            actions: seq![
                ActionView::Announce {
                    message: MessageView::StartRaceMessage {  },
                    recipients: recipients_of(pre.clients, true),
                },
            ],
        }
    } else {
        Ticked { state: pre, actions: Seq::empty() }
    }
}

/// A tick at instant `now`: the lobby timer is looked at, then the
/// stage-load timer.
pub open spec fn tick(pre: ServerView, now: u64) -> Ticked {
    let first = tick_lobby(pre, now);
    let second = tick_stage(first.state, now);
    Ticked { state: second.state, actions: first.actions + second.actions }
}

/// The payload of an announcement: a match-state frame whose text is `json`
/// with the name `name` widened to its qualified form.
pub open spec fn announcement_payload(json: Seq<char>, name: Seq<char>, stamp: u32) -> Seq<u8> {
    match_payload(stamp, crate::buffer::qualified(json, name))
}

/// Frames the textual form `json` of `message` as a match-state datagram
/// with sequence number 0, where it fits one.
pub fn announcement(message: &MessageTypes, json: String, stamp: u32) -> (result: Result<
    Vec<u8>,
    Fault,
>)
    ensures
        result is Ok <==> fits(announcement_payload(json@, message.spec_name(), stamp)),
        result matches Ok(datagram) ==> datagram@ == frame(
            (Header::UserReliableOrdered { channel: 0 }).spec_code(),
            0,
            announcement_payload(json@, message.spec_name(), stamp),
        ),
        result matches Err(fault) ==> fault == Fault::Overflow,
{
    let text = crate::buffer::sharpize(json, message.as_string());
    let mut buffer = Buffer::default();
    buffer.write_game_header(GameHeader::MatchMessage);
    buffer.write_time(stamp);
    proof {
        crate::wire::lemma_le_word_of_bytes(stamp);
    }
    if string_size(text.as_str()) > buffer.room() {
        return Err(Fault::Overflow);
    }
    buffer.write_string(text.as_str());
    assert(buffer.payload_bytes() =~= announcement_payload(json@, message.spec_name(), stamp));
    buffer.write_header(Header::UserReliableOrdered { channel: 0 });
    Ok(buffer.message())
}

/// Overwrites the sequence number in the preamble of `datagram` with
/// `sequence`. A datagram too short to hold one is left as it is.
pub fn restamp(datagram: &mut Vec<u8>, sequence: usize)
    ensures
        old(datagram)@.len() >= 3 ==> final(datagram)@ == restamped(old(datagram)@, sequence as int),
        old(datagram)@.len() < 3 ==> final(datagram)@ == old(datagram)@,
{
    if datagram.len() >= 3 {
        datagram[1] = crate::to_byte(sequence % 128 * 2);
        datagram[2] = crate::to_byte(sequence / 128);
        assert(datagram@ =~= restamped(old(datagram)@, sequence as int));
    }
}

/// `<str as Debug>::fmt`, through `format!`: `s` as a quoted literal.
#[verifier::external_body]
fn quoted(s: &str) -> (text: String)
    ensures
        text@ == debug_text(s@),
{
    format!("{:?}", s)
}

/// The line that tells everybody that a client joined, from the quoted name.
pub fn join_line(quoted_name: String) -> (line: String)
    ensures
        line@ == join_text(quoted_name@),
{
    let mut line = quoted_name;
    line.append(", Has Joined The Match");
    line
}

/// The line that tells a joining client the message of the day.
pub fn motd_line(motd: &str) -> (line: String)
    ensures
        line@ == motd_text(motd@),
{
    let mut line = "Our Message of the day is ".to_owned();
    line.append(motd);
    line
}

/// Whether two byte vectors hold the same bytes.
fn same_bytes(a: &Vec<u8>, b: &Vec<u8>) -> (same: bool)
    ensures
        same == (a@ == b@),
{
    if a.len() != b.len() {
        return false;
    }
    let mut i: usize = 0;
    while i < a.len()
        invariant
            i <= a.len(),
            a.len() == b.len(),
            forall|j: int| 0 <= j < i ==> a@[j] == b@[j],
        decreases a.len() - i,
    {
        if a[i] != b[i] {
            return false;
        }
        i += 1;
    }
    assert(a@ =~= b@);
    true
}

impl Server {
    /// A server with nobody connected and all timers stopped.
    pub fn new(config: ServerConfig, matches: MatchConfig, motd: Motd) -> (server: Server)
        ensures
            server@ == (ServerView {
                app_id: "Sanicball"@,
                config,
                match_settings: matches,
                motd: motd.text@,
                clock: Clock::cleared(0),
                clients: Seq::empty(),
                players: Seq::empty(),
            }),
    {
        let server = Server {
            app_id: "Sanicball".to_owned(),
            config,
            match_settings: matches,
            motd,
            clock: Clock::default(),
            clients: Vec::new(),
            players: Vec::new(),
        };
        assert(server@.clients =~= Seq::<ClientView>::empty());
        assert(server@.players =~= Seq::<PlayerView>::empty());
        server
    }

    /// The position of the client that is reached at `origin`.
    pub fn sending_client(&self, origin: Endpoint) -> (found: Option<usize>)
        ensures
            match found {
                Some(i) => find_sender(self@.clients, origin) == Some(i as int) && i
                    < self.clients@.len(),
                None => find_sender(self@.clients, origin) is None,
            },
    {
        let ghost views = client_views(self.clients@);
        let ghost pred = |c: ClientView| c.connection == origin;
        let mut i: usize = 0;
        while i < self.clients.len()
            invariant
                i <= self.clients.len(),
                views == client_views(self.clients@),
                pred == (|c: ClientView| c.connection == origin),
                forall|j: int| 0 <= j < i ==> !pred(views[j]),
            decreases self.clients.len() - i,
        {
            if self.clients[i].connection == origin {
                proof {
                    lemma_first_match_is(views, pred, i as int);
                }
                return Some(i);
            }
            i += 1;
        }
        proof {
            lemma_first_match(views, pred);
        }
        None
    }

    /// The position of the client with identity `guid`.
    pub fn current_client(&self, guid: &Vec<u8>) -> (found: Option<usize>)
        ensures
            match found {
                Some(i) => find_client(self@.clients, guid@) == Some(i as int) && i
                    < self.clients@.len(),
                None => find_client(self@.clients, guid@) is None,
            },
    {
        let ghost views = client_views(self.clients@);
        let ghost pred = |c: ClientView| c.guid == guid@;
        let mut i: usize = 0;
        while i < self.clients.len()
            invariant
                i <= self.clients.len(),
                views == client_views(self.clients@),
                pred == (|c: ClientView| c.guid == guid@),
                forall|j: int| 0 <= j < i ==> !pred(views[j]),
            decreases self.clients.len() - i,
        {
            if same_bytes(&self.clients[i].guid, guid) {
                proof {
                    lemma_first_match_is(views, pred, i as int);
                }
                return Some(i);
            }
            i += 1;
        }
        proof {
            lemma_first_match(views, pred);
        }
        None
    }

    /// The position of the player with identity `guid` on controller slot `control`.
    pub fn current_player(&self, guid: &Vec<u8>, control: &i32) -> (found: Option<usize>)
        ensures
            match found {
                Some(i) => find_player(self@.players, guid@, *control) == Some(i as int) && i
                    < self.players@.len(),
                None => find_player(self@.players, guid@, *control) is None,
            },
    {
        let ghost views = player_views(self.players@);
        let ghost pred = |p: PlayerView| p.guid == guid@ && p.ctrl_type == *control;
        let mut i: usize = 0;
        while i < self.players.len()
            invariant
                i <= self.players.len(),
                views == player_views(self.players@),
                pred == (|p: PlayerView| p.guid == guid@ && p.ctrl_type == *control),
                forall|j: int| 0 <= j < i ==> !pred(views[j]),
            decreases self.players.len() - i,
        {
            if same_bytes(&self.players[i].guid, guid) && self.players[i].ctrl_type == *control {
                proof {
                    lemma_first_match_is(views, pred, i as int);
                }
                return Some(i);
            }
            i += 1;
        }
        proof {
            lemma_first_match(views, pred);
        }
        None
    }

    /// Closes the datagram in `buffer` with `header` and addresses it to `addr`.
    pub fn send_to(&self, buffer: &mut Buffer, header: Header, addr: Endpoint) -> (action: Action)
        requires
            header.wf(),
        ensures
            action@ == (ActionView::Send {
                to: addr,
                datagram: frame(
                    header.spec_code(),
                    old(buffer).sequence() as int,
                    old(buffer).payload_bytes(),
                ),
            }),
            final(buffer).payload_bytes() == old(buffer).payload_bytes(),
            final(buffer).sequence() == old(buffer).sequence(),
    {
        buffer.write_header(header);
        Action::Send { to: addr, datagram: buffer.message() }
    }

    /// Closes the datagram in `buffer` with `header` and addresses a copy to
    /// every client, each copy stamped with the client's own counter; every
    /// counter then moves on by one.
    pub fn send_all(&mut self, buffer: &mut Buffer, header: Header) -> (actions: Vec<Action>)
        requires
            header.wf(),
        ensures
            action_views(actions@) == broadcast(
                old(self)@.clients,
                header.spec_code(),
                old(buffer).payload_bytes(),
            ),
            final(self)@ == (ServerView { clients: bumped(old(self)@.clients), ..old(self)@ }),
            final(buffer).payload_bytes() == old(buffer).payload_bytes(),
            final(buffer).sequence() == old(buffer).sequence(),
    {
        let ghost before = client_views(self.clients@);
        let ghost code = header.spec_code();
        let ghost payload = buffer.payload_bytes();
        let ghost stamp = buffer.sequence() as int;
        let ghost players = self.players@;
        buffer.write_header(header);
        let mut actions: Vec<Action> = Vec::new();
        let mut i: usize = 0;
        while i < self.clients.len()
            invariant
                i <= self.clients.len(),
                self.clients@.len() == before.len(),
                self.app_id == old(self).app_id,
                self.config == old(self).config,
                self.match_settings == old(self).match_settings,
                self.motd == old(self).motd,
                self.clock == old(self).clock,
                self.players@ == players,
                players == old(self).players@,
                buffer.payload_bytes() == payload,
                buffer.sequence() == old(buffer).sequence(),
                buffer.message_bytes().len() == 5 + payload.len(),
                forall|k: int|
                    0 <= k < 5 + payload.len() && k != 1 && k != 2 ==> buffer.message_bytes()[k]
                        == frame(code, stamp, payload)[k],
                actions@.len() == i,
                forall|j: int|
                    0 <= j < i ==> (#[trigger] actions@[j])@ == broadcast(before, code, payload)[j],
                forall|j: int|
                    0 <= j < i ==> (#[trigger] self.clients@[j])@ == bumped(before)[j],
                forall|j: int|
                    i <= j < before.len() ==> (#[trigger] self.clients@[j])@ == before[j],
            decreases self.clients.len() - i,
        {
            let counter = self.clients[i].counter;
            buffer.seq(counter);
            self.clients[i].counter = if counter == usize::MAX {
                0
            } else {
                counter + 1
            };
            let datagram = buffer.message();
            assert(datagram@ =~= frame(code, counter as int, payload));
            actions.push(Action::Send { to: self.clients[i].connection, datagram });
            i += 1;
        }
        assert(action_views(actions@) =~= broadcast(before, code, payload));
        assert(client_views(self.clients@) =~= bumped(before));
        actions
    }

    /// The announcement of `header` to every client, each stamped with the
    /// client's own counter; every counter then moves on by one.
    pub fn send_new(&mut self, header: MessageTypes) -> (action: Action)
        ensures
            action@ == (ActionView::Announce {
                message: header@,
                recipients: recipients_of(old(self)@.clients, true),
            }),
            final(self)@ == (ServerView { clients: bumped(old(self)@.clients), ..old(self)@ }),
    {
        let ghost before = client_views(self.clients@);
        let ghost players = self.players@;
        let mut recipients: Vec<Recipient> = Vec::new();
        let mut i: usize = 0;
        while i < self.clients.len()
            invariant
                i <= self.clients.len(),
                self.clients@.len() == before.len(),
                self.app_id == old(self).app_id,
                self.config == old(self).config,
                self.match_settings == old(self).match_settings,
                self.motd == old(self).motd,
                self.clock == old(self).clock,
                self.players@ == players,
                players == old(self).players@,
                recipients@.len() == i,
                forall|j: int| 0 <= j < i ==> recipients@[j] == recipients_of(before, true)[j],
                forall|j: int|
                    0 <= j < i ==> (#[trigger] self.clients@[j])@ == bumped(before)[j],
                forall|j: int|
                    i <= j < before.len() ==> (#[trigger] self.clients@[j])@ == before[j],
            decreases self.clients.len() - i,
        {
            let counter = self.clients[i].counter;
            recipients.push(Recipient { to: self.clients[i].connection, sequence: counter });
            self.clients[i].counter = if counter == usize::MAX {
                0
            } else {
                counter + 1
            };
            i += 1;
        }
        assert(recipients@ =~= recipients_of(before, true));
        assert(client_views(self.clients@) =~= bumped(before));
        Action::Announce { message: header, recipients }
    }

    /// A chat line from the server for the peer at `socket` alone.
    pub fn chat_to(&self, message: &str, socket: Endpoint) -> (action: Action)
        ensures
            action@ == (ActionView::Announce {
                message: server_chat(message@),
                recipients: seq![Recipient { to: socket, sequence: 0 }],
            }),
    {
        let email = MessageTypes::ChatMessage {
            from: "Server".to_owned(),
            kind: ChatMessageType::System,
            text: message.to_owned(),
        };
        let mut recipients: Vec<Recipient> = Vec::new();
        recipients.push(Recipient { to: socket, sequence: 0 });
        assert(recipients@ =~= seq![Recipient { to: socket, sequence: 0 }]);
        Action::Announce { message: email, recipients }
    }

    /// A chat line from the server for every client. No counter moves.
    pub fn chat_all(&self, message: &str) -> (action: Action)
        ensures
            action@ == (ActionView::Announce {
                message: server_chat(message@),
                recipients: recipients_of(self@.clients, false),
            }),
    {
        let email = MessageTypes::ChatMessage {
            from: "Server".to_owned(),
            kind: ChatMessageType::System,
            text: message.to_owned(),
        };
        let ghost views = client_views(self.clients@);
        let mut recipients: Vec<Recipient> = Vec::new();
        let mut i: usize = 0;
        while i < self.clients.len()
            invariant
                i <= self.clients.len(),
                views == client_views(self.clients@),
                recipients@.len() == i,
                forall|j: int| 0 <= j < i ==> recipients@[j] == recipients_of(views, false)[j],
            decreases self.clients.len() - i,
        {
            recipients.push(Recipient { to: self.clients[i].connection, sequence: 0 });
            i += 1;
        }
        assert(recipients@ =~= recipients_of(views, false));
        Action::Announce { message: email, recipients }
    }

    /// A ready-state change: starts the lobby timer unless it runs and sets
    /// the player's ready flag.
    fn on_changed_ready(&mut self, client_guid: String, ctrl_type: i32, ready: bool, at: u64) -> (out:
        StateOutcome)
        ensures
            final(self).settled(
                out,
                apply(
                    old(self)@,
                    MessageView::ChangedReadyMessage { client_guid: client_guid@, ctrl_type, ready },
                    Endpoint::V4 { ip: 0, port: 0 },
                    at,
                ),
            ),
    {
        let ghost players = player_views(self.players@);
        let actions: Vec<Action> = Vec::new();
        assert(action_views(actions@) =~= Seq::<ActionView>::empty());
        let vecter = match guid_to_vec(client_guid) {
            Ok(bytes) => bytes,
            Err(e) => {
                return StateOutcome { actions, result: Err(Fault::Decode(e)) };
            },
        };
        self.clock.lobby.start(at);
        match self.current_player(&vecter, &ctrl_type) {
            Some(index) => {
                self.players[index].ready_to_race = ready;
                assert(player_views(self.players@) =~= players.update(
                    index as int,
                    PlayerView { ready_to_race: ready, ..players[index as int] },
                ));
                StateOutcome { actions, result: Ok(Effect::Applied) }
            },
            None => StateOutcome { actions, result: Ok(Effect::UnknownPlayer) },
        }
    }

    /// A character change: sets the player's character.
    fn on_character_changed(&mut self, client_guid: String, ctrl_type: i32, new_character: i32) -> (out:
        StateOutcome)
        ensures
            final(self).settled(
                out,
                apply(
                    old(self)@,
                    MessageView::CharacterChangedMessage {
                        client_guid: client_guid@,
                        ctrl_type,
                        new_character,
                    },
                    Endpoint::V4 { ip: 0, port: 0 },
                    0,
                ),
            ),
    {
        let ghost players = player_views(self.players@);
        let actions: Vec<Action> = Vec::new();
        assert(action_views(actions@) =~= Seq::<ActionView>::empty());
        let vecter = match guid_to_vec(client_guid) {
            Ok(bytes) => bytes,
            Err(e) => {
                return StateOutcome { actions, result: Err(Fault::Decode(e)) };
            },
        };
        match self.current_player(&vecter, &ctrl_type) {
            Some(index) => {
                self.players[index].char_id = new_character;
                assert(player_views(self.players@) =~= players.update(
                    index as int,
                    PlayerView { char_id: new_character, ..players[index as int] },
                ));
                StateOutcome { actions, result: Ok(Effect::Applied) }
            },
            None => StateOutcome { actions, result: Ok(Effect::UnknownPlayer) },
        }
    }

    /// A racer that is done: clears the player's racing flag.
    fn on_done_racing(&mut self, client_guid: String, ctrl_type: i32) -> (out: StateOutcome)
        ensures
            final(self).settled(
                out,
                apply(
                    old(self)@,
                    MessageView::DoneRacingMessage {
                        client_guid: client_guid@,
                        ctrl_type,
                        race_time: 0,
                        disqualified: false,
                    },
                    Endpoint::V4 { ip: 0, port: 0 },
                    0,
                ),
            ),
    {
        let ghost players = player_views(self.players@);
        let actions: Vec<Action> = Vec::new();
        assert(action_views(actions@) =~= Seq::<ActionView>::empty());
        let vecter = match guid_to_vec(client_guid) {
            Ok(bytes) => bytes,
            Err(e) => {
                return StateOutcome { actions, result: Err(Fault::Decode(e)) };
            },
        };
        match self.current_player(&vecter, &ctrl_type) {
            Some(index) => {
                self.players[index].is_racing = false;
                assert(player_views(self.players@) =~= players.update(
                    index as int,
                    PlayerView { is_racing: false, ..players[index as int] },
                ));
                StateOutcome { actions, result: Ok(Effect::Applied) }
            },
            None => StateOutcome { actions, result: Ok(Effect::UnknownPlayer) },
        }
    }

    /// A client that joins: announces it and appends it to the roster.
    fn on_client_joined(&mut self, client_guid: String, client_name: String, origin: Endpoint) -> (out:
        StateOutcome)
        ensures
            final(self).settled(
                out,
                apply(
                    old(self)@,
                    MessageView::ClientJoinedMessage {
                        client_guid: client_guid@,
                        client_name: client_name@,
                    },
                    origin,
                    0,
                ),
            ),
    {
        let ghost clients = client_views(self.clients@);
        let mut actions: Vec<Action> = Vec::new();
        assert(action_views(actions@) =~= Seq::<ActionView>::empty());
        let vecter = match guid_to_vec(client_guid) {
            Ok(bytes) => bytes,
            Err(e) => {
                return StateOutcome { actions, result: Err(Fault::Decode(e)) };
            },
        };
        let joined = join_line(quoted(client_name.as_str()));
        let a0 = self.chat_all(joined.as_str());
        let a1 = self.chat_to("Welcome", origin);
        let line = motd_line(self.motd.text.as_str());
        let a2 = self.chat_to(line.as_str(), origin);
        let ghost views = seq![a0@, a1@, a2@];
        actions.push(a0);
        actions.push(a1);
        actions.push(a2);
        assert(action_views(actions@) =~= views);
        let ghost view = ClientView {
            guid: vecter@,
            name: client_name@,
            connection: origin,
            is_loading: false,
            wants_lobby: false,
            counter: 0,
        };
        self.clients.push(
            Client {
                guid: vecter,
                name: client_name,
                connection: origin,
                is_loading: false,
                wants_lobby: false,
                counter: 0,
            },
        );
        assert(client_views(self.clients@) =~= clients.push(view));
        StateOutcome { actions, result: Ok(Effect::Applied) }
    }

    /// A player that joins: appends it if its client is in the roster.
    fn on_player_joined(&mut self, client_guid: String, ctrl_type: i32, initial_character: i32) -> (out:
        StateOutcome)
        ensures
            final(self).settled(
                out,
                apply(
                    old(self)@,
                    MessageView::PlayerJoinedMessage {
                        client_guid: client_guid@,
                        ctrl_type,
                        initial_character,
                    },
                    Endpoint::V4 { ip: 0, port: 0 },
                    0,
                ),
            ),
    {
        let ghost players = player_views(self.players@);
        let actions: Vec<Action> = Vec::new();
        assert(action_views(actions@) =~= Seq::<ActionView>::empty());
        let vecter = match guid_to_vec(client_guid) {
            Ok(bytes) => bytes,
            Err(e) => {
                return StateOutcome { actions, result: Err(Fault::Decode(e)) };
            },
        };
        match self.current_client(&vecter) {
            None => StateOutcome { actions, result: Ok(Effect::UnknownClient) },
            Some(_) => {
                let ghost view = PlayerView {
                    guid: vecter@,
                    ctrl_type,
                    char_id: initial_character,
                    ready_to_race: false,
                    is_racing: false,
                    has_timed_out: false,
                };
                self.players.push(
                    Player {
                        guid: vecter,
                        ctrl_type,
                        char_id: initial_character,
                        ready_to_race: false,
                        is_racing: false,
                        race_timeout: Stopwatch {  },
                        has_timed_out: false,
                    },
                );
                assert(player_views(self.players@) =~= players.push(view));
                StateOutcome { actions, result: Ok(Effect::Applied) }
            },
        }
    }

    /// A player that leaves: removes it from the roster.
    fn on_player_left(&mut self, client_guid: String, ctrl_type: i32) -> (out: StateOutcome)
        ensures
            final(self).settled(
                out,
                apply(
                    old(self)@,
                    MessageView::PlayerLeftMessage { client_guid: client_guid@, ctrl_type },
                    Endpoint::V4 { ip: 0, port: 0 },
                    0,
                ),
            ),
    {
        let ghost players = player_views(self.players@);
        let actions: Vec<Action> = Vec::new();
        assert(action_views(actions@) =~= Seq::<ActionView>::empty());
        let vecter = match guid_to_vec(client_guid) {
            Ok(bytes) => bytes,
            Err(e) => {
                return StateOutcome { actions, result: Err(Fault::Decode(e)) };
            },
        };
        match self.current_player(&vecter, &ctrl_type) {
            Some(index) => {
                self.players.remove(index);
                assert(player_views(self.players@) =~= players.remove(index as int));
                StateOutcome { actions, result: Ok(Effect::Applied) }
            },
            None => StateOutcome { actions, result: Ok(Effect::UnknownPlayer) },
        }
    }

    /// The start of a race: sets every player's racing flag if the message
    /// came from a client.
    fn on_start_race(&mut self, origin: Endpoint) -> (out: StateOutcome)
        ensures
            final(self).settled(
                out,
                apply(old(self)@, MessageView::StartRaceMessage {  }, origin, 0),
            ),
    {
        let ghost players = player_views(self.players@);
        let actions: Vec<Action> = Vec::new();
        assert(action_views(actions@) =~= Seq::<ActionView>::empty());
        match self.sending_client(origin) {
            Some(_) => {
                let mut i: usize = 0;
                while i < self.players.len()
                    invariant
                        i <= self.players.len(),
                        self.players@.len() == players.len(),
                        self.app_id == old(self).app_id,
                        self.config == old(self).config,
                        self.match_settings == old(self).match_settings,
                        self.motd == old(self).motd,
                        self.clock == old(self).clock,
                        self.clients == old(self).clients,
                        forall|j: int|
                            0 <= j < i ==> (#[trigger] self.players@[j])@ == (PlayerView {
                                is_racing: true,
                                ..players[j]
                            }),
                        forall|j: int|
                            i <= j < players.len() ==> (#[trigger] self.players@[j])@ == players[j],
                    decreases self.players.len() - i,
                {
                    self.players[i].is_racing = true;
                    i += 1;
                }
                assert(player_views(self.players@) =~= players.map_values(
                    |p: PlayerView| PlayerView { is_racing: true, ..p },
                ));
                StateOutcome { actions, result: Ok(Effect::Applied) }
            },
            None => StateOutcome { actions, result: Ok(Effect::UnknownSender) },
        }
    }

    /// Whether this server and `out` are what `applied` says.
    pub open spec fn settled(&self, out: StateOutcome, applied: Applied) -> bool {
        &&& self@ == applied.state
        &&& action_views(out.actions@) == applied.actions
        &&& out.result == applied.result
    }

    /// Applies one game-state message that came from `origin` at instant `at`.
    pub fn update_server_state(&mut self, message: MessageTypes, origin: Endpoint, at: u64) -> (out:
        StateOutcome)
        ensures
            final(self).settled(
                out, apply(old(self)@, message@, origin, at)),
    {
        match message {
            MessageTypes::AutoStartTimerMessage { enabled } => {
                let actions: Vec<Action> = Vec::new();
                assert(action_views(actions@) =~= Seq::<ActionView>::empty());
                StateOutcome { actions, result: Err(Fault::Unsupported) }
            },
            MessageTypes::ChangedReadyMessage {
                client_guid,
                ctrl_type,
                ready,
            } => self.on_changed_ready(client_guid, ctrl_type, ready, at),
            MessageTypes::CharacterChangedMessage {
                client_guid,
                ctrl_type,
                new_character,
            } => self.on_character_changed(client_guid, ctrl_type, new_character),
            MessageTypes::ClientJoinedMessage {
                client_guid,
                client_name,
            } => self.on_client_joined(client_guid, client_name, origin),
            MessageTypes::DoneRacingMessage {
                client_guid,
                ctrl_type,
                race_time,
                disqualified,
            } => self.on_done_racing(client_guid, ctrl_type),
            MessageTypes::PlayerJoinedMessage {
                client_guid,
                ctrl_type,
                initial_character,
            } => self.on_player_joined(client_guid, ctrl_type, initial_character),
            MessageTypes::PlayerLeftMessage {
                client_guid,
                ctrl_type,
            } => self.on_player_left(client_guid, ctrl_type),
            MessageTypes::SettingsChanged { new_match_settings } => {
                self.match_settings = new_match_settings;
                let actions: Vec<Action> = Vec::new();
                assert(action_views(actions@) =~= Seq::<ActionView>::empty());
                StateOutcome { actions, result: Ok(Effect::Applied) }
            },
            MessageTypes::StartRaceMessage {  } => self.on_start_race(origin),
            _ => {
                let actions: Vec<Action> = Vec::new();
                assert(action_views(actions@) =~= Seq::<ActionView>::empty());
                StateOutcome { actions, result: Ok(Effect::Accepted) }
            },
        }
    }

    /// Whether this server and `out` are what `response` says.
    pub open spec fn answered(&self, out: Outcome, response: Response) -> bool {
        &&& self@ == response.state
        &&& action_views(out.actions@) == response.actions
        &&& out.result == response.result
    }

    /// The acknowledgment of `stream`, for its sender.
    pub fn ack(&self, stream: &Stream) -> (action: Action)
        ensures
            action@ == (ActionView::Send {
                to: stream.origin,
                datagram: ack_datagram(stream.header_byte, stream.sequence),
            }),
    {
        let mut buffer = Buffer::default();
        buffer.write_byte(stream.header_byte);
        buffer.write_byte((stream.sequence % 256) as u8);
        buffer.write_byte((stream.sequence / 256) as u8);
        assert(buffer.payload_bytes() =~= seq![
            stream.header_byte,
            (stream.sequence % 256) as u8,
            (stream.sequence / 256) as u8,
        ]);
        self.send_to(&mut buffer, Header::Acknowledge, stream.origin)
    }

    /// Answers a ping.
    fn reply_ping(&self, stream: &Stream, stamp: u32) -> (out: Outcome)
        ensures
            self.answered(out, respond_ping(self@, *stream, stamp)),
    {
        let mut actions: Vec<Action> = Vec::new();
        assert(action_views(actions@) =~= Seq::<ActionView>::empty());
        let token = match decode_byte(stream.data.as_slice(), stream.ptr) {
            Ok((token, _)) => token,
            Err(e) => {
                return Outcome { actions, result: Err(Fault::Decode(e)) };
            },
        };
        let mut buffer = Buffer::default();
        buffer.write_byte(token);
        buffer.write_time(stamp);
        assert(buffer.payload_bytes() =~= seq![token] + le_bytes(stamp));
        let action = self.send_to(&mut buffer, Header::Pong, stream.origin);
        actions.push(action);
        assert(action_views(actions@) =~= seq![action@]);
        Outcome { actions, result: Ok(Note::Replied) }
    }

    /// Answers a connect request.
    fn reply_connect(&self, stream: &Stream) -> (out: Outcome)
        ensures
            self.answered(out, respond_connect(self@, *stream)),
    {
        let mut actions: Vec<Action> = Vec::new();
        assert(action_views(actions@) =~= Seq::<ActionView>::empty());
        let next = match decode_string(stream.data.as_slice(), stream.ptr) {
            Ok((_, next)) => next,
            Err(e) => {
                return Outcome { actions, result: Err(Fault::Decode(e)) };
            },
        };
        match decode_vec3(stream.data.as_slice(), next) {
            Ok(_) => {},
            Err(e) => {
                return Outcome { actions, result: Err(Fault::Decode(e)) };
            },
        }
        let mut buffer = Buffer::default();
        if string_size(self.app_id.as_str()) > buffer.room() {
            return Outcome { actions, result: Err(Fault::Overflow) };
        }
        buffer.write_string(self.app_id.as_str());
        assert(buffer.payload_bytes() =~= encode_string(self.app_id@));
        let action = self.send_to(&mut buffer, Header::ConnectResponse, stream.origin);
        actions.push(action);
        assert(action_views(actions@) =~= seq![action@]);
        Outcome { actions, result: Ok(Note::Replied) }
    }

    /// Answers an established connection.
    fn reply_established(&self, stream: &Stream) -> (out: Outcome)
        ensures
            self.answered(out, respond_established(self@, *stream)),
    {
        let mut actions: Vec<Action> = Vec::new();
        assert(action_views(actions@) =~= Seq::<ActionView>::empty());
        match decode_u32(stream.data.as_slice(), stream.ptr) {
            Ok(_) => {},
            Err(e) => {
                return Outcome { actions, result: Err(Fault::Decode(e)) };
            },
        }
        let ghost clients = encode_clients(self@.clients);
        let ghost players = encode_players(self@.players);
        proof {
            crate::wire::lemma_le_word_of_bytes(crate::wire::i32_bits(67));
            crate::wire::lemma_settings_len(self.match_settings);
        }
        let c = clients_size(&self.clients);
        let p = players_size(&self.players);
        if c > 1453 || p > 1453 - c {
            return Outcome { actions, result: Err(Fault::Overflow) };
        }
        let mut buffer = Buffer::default();
        buffer.write_game_header(GameHeader::InitMessage);
        buffer.write_clients(&self.clients);
        buffer.write_players(&self.players);
        let ghost head = seq![GameHeader::InitMessage.spec_code()] + clients + players;
        assert(buffer.payload_bytes() =~= head);
        buffer.write_settings(&self.match_settings);
        buffer.write_bool(false);
        buffer.write_i32(&67);
        assert(buffer.payload_bytes() =~= init_payload(self@));
        let action = self.send_to(
            &mut buffer,
            Header::UserReliableOrdered { channel: 0 },
            stream.origin,
        );
        actions.push(action);
        assert(action_views(actions@) =~= seq![action@]);
        Outcome { actions, result: Ok(Note::Replied) }
    }

    /// Relays a match-state frame whose clock reading stands at `at`.
    fn relay_match_frame(
        &mut self,
        stream: &Stream,
        at: usize,
        decoded: Option<MessageTypes>,
        now: u64,
        stamp: u32,
    ) -> (out: Outcome)
        ensures
            final(self).answered(
                out,
                relay_match(old(self)@, *stream, at as int, decoded_view(decoded), now, stamp),
            ),
    {
        let ack = self.ack(stream);
        let mut actions: Vec<Action> = Vec::new();
        actions.push(ack);
        assert(action_views(actions@) =~= seq![ack@]);
        let next = match decode_u32(stream.data.as_slice(), at) {
            Ok((_, next)) => next,
            Err(e) => {
                return Outcome { actions, result: Err(Fault::Decode(e)) };
            },
        };
        let json = match decode_string(stream.data.as_slice(), next) {
            Ok((json, _)) => json,
            Err(e) => {
                return Outcome { actions, result: Err(Fault::Decode(e)) };
            },
        };
        let mut buffer = Buffer::default();
        buffer.write_game_header(GameHeader::MatchMessage);
        buffer.write_time(stamp);
        proof {
            crate::wire::lemma_le_word_of_bytes(stamp);
        }
        if string_size(json.as_str()) > buffer.room() {
            return Outcome { actions, result: Err(Fault::Overflow) };
        }
        buffer.write_string(json.as_str());
        assert(buffer.payload_bytes() =~= match_payload(stamp, json@));
        let message = match decoded {
            Some(message) => message,
            None => {
                return Outcome { actions, result: Err(Fault::Decode(DecodeError::BadMessage)) };
            },
        };
        let ghost applied = apply(self@, message@, stream.origin, now);
        let mut state = self.update_server_state(message, stream.origin, now);
        let effect = match state.result {
            Ok(effect) => effect,
            Err(fault) => {
                return Outcome { actions, result: Err(fault) };
            },
        };
        actions.append(&mut state.actions);
        assert(action_views(actions@) =~= seq![ack@] + applied.actions);
        let ghost joined = client_views(self.clients@);
        let resynced = match self.sending_client(stream.origin) {
            Some(index) => {
                self.clients[index].counter = stream.sequence as usize + 1;
                assert(client_views(self.clients@) =~= resynced(
                    joined,
                    stream.origin,
                    stream.sequence,
                ));
                true
            },
            None => false,
        };
        let mut sent = self.send_all(&mut buffer, Header::UserReliableOrdered { channel: 0 });
        let ghost head = action_views(actions@);
        let ghost tail = action_views(sent@);
        actions.append(&mut sent);
        assert(action_views(actions@) =~= head + tail);
        Outcome { actions, result: Ok(Note::Relayed { effect, resynced }) }
    }

    /// Relays a movement frame whose clock reading stands at `at`.
    fn relay_movement_frame(&self, stream: &Stream, at: usize, stamp: u32) -> (out: Outcome)
        ensures
            self.answered(out, relay_movement(self@, *stream, at as int, stamp)),
    {
        let ack = self.ack(stream);
        let mut actions: Vec<Action> = Vec::new();
        actions.push(ack);
        assert(action_views(actions@) =~= seq![ack@]);
        let next = match decode_u32(stream.data.as_slice(), at) {
            Ok((_, next)) => next,
            Err(e) => {
                return Outcome { actions, result: Err(Fault::Decode(e)) };
            },
        };
        let mut buffer = Buffer::default();
        buffer.write_game_header(GameHeader::PlayerMovementMessage);
        buffer.write_time(stamp);
        proof {
            crate::wire::lemma_le_word_of_bytes(stamp);
        }
        let ghost head = seq![GameHeader::PlayerMovementMessage.spec_code()] + le_bytes(stamp);
        assert(buffer.payload_bytes() =~= head);
        let len = stream.data.len();
        if len - next > buffer.room() {
            return Outcome { actions, result: Err(Fault::Overflow) };
        }
        let mut i: usize = next;
        while i < len
            invariant
                next <= i <= len,
                len == stream.data@.len(),
                buffer.payload_bytes() == head + stream.data@.subrange(next as int, i as int),
                buffer.sequence() == 0,
                buffer.remaining() >= len - i,
            decreases len - i,
        {
            buffer.write_byte(stream.data[i]);
            assert(buffer.payload_bytes() =~= head + stream.data@.subrange(next as int, i + 1));
            i += 1;
        }
        let ghost payload = movement_payload(stamp, stream.data@.subrange(next as int, len as int));
        assert(buffer.payload_bytes() =~= payload);
        buffer.write_header(Header::UserUnreliable);
        let guid: Vec<u8> = match self.sending_client(stream.origin) {
            Some(index) => slice_to_vec(self.clients[index].guid.as_slice()),
            None => Vec::new(),
        };
        let ghost views = client_views(self.clients@);
        let ghost datagram = frame(Header::UserUnreliable.spec_code(), 0, payload);
        assert(guid@ =~= sender_guid(views, stream.origin));
        let mut k: usize = 0;
        assert(views.take(0) =~= Seq::<ClientView>::empty());
        while k < self.clients.len()
            invariant
                k <= self.clients.len(),
                views == client_views(self.clients@),
                buffer.message_bytes() == datagram,
                action_views(actions@) == seq![ack@] + forwards(views.take(k as int), guid@, datagram),
            decreases self.clients.len() - k,
        {
            let ghost done = action_views(actions@);
            proof {
                assert(views.take(k + 1).drop_last() =~= views.take(k as int));
                assert(views.take(k + 1).last() == self.clients@[k as int]@);
            }
            if !same_bytes(&self.clients[k].guid, &guid) {
                let message = buffer.message();
                actions.push(Action::Send { to: self.clients[k].connection, datagram: message });
                assert(action_views(actions@) =~= done.push(
                    ActionView::Send { to: self.clients@[k as int].connection, datagram },
                ));
            }
            assert(action_views(actions@) =~= seq![ack@] + forwards(
                views.take(k + 1),
                guid@,
                datagram,
            ));
            k += 1;
        }
        assert(views.take(self.clients@.len() as int) =~= views);
        Outcome { actions, result: Ok(Note::Forwarded) }
    }

    /// Acknowledges a user datagram and relays its game frame.
    pub fn relay_data(
        &mut self,
        stream: &Stream,
        decoded: Option<MessageTypes>,
        now: u64,
        stamp: u32,
    ) -> (out: Outcome)
        ensures
            final(self).answered(
                out,
                relay(old(self)@, *stream, decoded_view(decoded), now, stamp),
            ),
    {
        match decode_game_header(stream.data.as_slice(), stream.ptr) {
            Ok((GameHeader::MatchMessage, next)) => self.relay_match_frame(
                stream,
                next,
                decoded,
                now,
                stamp,
            ),
            Ok((GameHeader::PlayerMovementMessage, next)) => self.relay_movement_frame(
                stream,
                next,
                stamp,
            ),
            Ok((GameHeader::InitMessage, _)) => {
                let ack = self.ack(stream);
                let mut actions: Vec<Action> = Vec::new();
                actions.push(ack);
                assert(action_views(actions@) =~= seq![ack@]);
                Outcome { actions, result: Err(Fault::Decode(DecodeError::UnexpectedInit)) }
            },
            Err(e) => {
                let ack = self.ack(stream);
                let mut actions: Vec<Action> = Vec::new();
                actions.push(ack);
                assert(action_views(actions@) =~= seq![ack@]);
                Outcome { actions, result: Err(Fault::Decode(e)) }
            },
        }
    }

    /// Handles one received datagram at instant `now`. `decoded` is the
    /// message that the text of a match-state frame stands for; `stamp` is
    /// the server's clock reading, in seconds, as the bit pattern of a
    /// single-precision number.
    pub fn update(
        &mut self,
        stream: &Stream,
        decoded: Option<MessageTypes>,
        now: u64,
        stamp: u32,
    ) -> (out: Outcome)
        ensures
            final(self).answered(
                out,
                respond(old(self)@, *stream, decoded_view(decoded), now, stamp),
            ),
    {
        match stream.header {
            Ok(Header::Acknowledge) => {
                let actions: Vec<Action> = Vec::new();
                assert(action_views(actions@) =~= Seq::<ActionView>::empty());
                Outcome { actions, result: Ok(Note::Silent) }
            },
            Ok(Header::Ping) => self.reply_ping(stream, stamp),
            Ok(Header::Connect) => self.reply_connect(stream),
            Ok(Header::ConnectionEstablished) => self.reply_established(stream),
            Ok(Header::UserReliableOrdered { channel }) => self.relay_data(
                stream,
                decoded,
                now,
                stamp,
            ),
            Ok(Header::UserUnreliable) => self.relay_data(stream, decoded, now, stamp),
            Ok(_) => {
                let actions: Vec<Action> = Vec::new();
                assert(action_views(actions@) =~= Seq::<ActionView>::empty());
                Outcome { actions, result: Err(Fault::Unhandled) }
            },
            Err(e) => {
                let actions: Vec<Action> = Vec::new();
                assert(action_views(actions@) =~= Seq::<ActionView>::empty());
                Outcome { actions, result: Err(Fault::Decode(e)) }
            },
        }
    }

    /// Looks at the timers at instant `now`: the lobby timer first, then the
    /// stage-load timer.
    pub fn timers(&mut self, now: u64) -> (actions: Vec<Action>)
        ensures
            final(self)@ == tick(old(self)@, now).state,
            action_views(actions@) == tick(old(self)@, now).actions,
    {
        let mut actions: Vec<Action> = Vec::new();
        assert(action_views(actions@) =~= Seq::<ActionView>::empty());
        if self.clock.lobby.timeout(LOBBY_DELAY, now) {
            self.clock.lobby.reset(now);
            self.clock.stage_load_timeout.start(now);
            let action = self.send_new(MessageTypes::LoadRaceMessage {  });
            actions.push(action);
            assert(action_views(actions@) =~= seq![action@]);
        }
        let ghost first = action_views(actions@);
        assert(first == tick_lobby(old(self)@, now).actions);
        assert(self@ == tick_lobby(old(self)@, now).state);
        if self.clock.stage_load_timeout.timeout(STAGE_LOAD_DELAY, now) {
            self.clock.stage_load_timeout.reset(now);
            let action = self.send_new(MessageTypes::StartRaceMessage {  });
            actions.push(action);
            assert(action_views(actions@) =~= first + seq![action@]);
        }
        assert(action_views(actions@) =~= first + tick_stage(
            tick_lobby(old(self)@, now).state,
            now,
        ).actions);
        actions
    }
}

} // verus!
