//! Configuration, roster entries and timers.
use crate::game::CtrlType;
use vstd::prelude::*;

verus! {

/// The address of a peer: what a datagram came from and where a reply goes.
#[allow(inconsistent_fields)]
#[derive(Debug, Clone, Copy, PartialEq, Eq, Structural)]
pub enum Endpoint {
    V4 { ip: u32, port: u16 },
    V6 { ip: u128, port: u16, flowinfo: u32, scope_id: u32 },
}

/// How the server presents itself.
#[derive(Debug, Clone, PartialEq, Eq)]
pub struct ServerConfig {
    pub public: bool,
    pub servers: Vec<String>,
    pub ip: String,
    pub port: i32,
    pub max_players: u8,
    pub enabled_connections: Vec<u8>,
}

/// The settings of one match. `vote_ratio` is the IEEE-754 bit pattern of a
/// single-precision number.
#[derive(Debug, Clone, Copy, PartialEq, Eq, Structural)]
pub struct MatchConfig {
    pub stage_id: i32,
    pub laps: i32,
    pub ai_count: i32,
    pub ai_skill: i32,
    pub auto_start_time: i32,
    pub auto_start_min_players: i32,
    pub auto_return_time: i32,
    pub vote_ratio: u32,
    pub stage_rotation_mode: i32,
}

/// The message of the day.
#[derive(Debug, Clone, PartialEq, Eq)]
pub struct Motd {
    pub text: String,
}

/// A clock that can be started, stopped and reset. Instants and durations
/// are counted in nanoseconds; an instant is the time since an epoch that
/// the caller chooses once.
#[derive(Debug, Clone, Copy, PartialEq, Eq, Structural)]
pub struct Timer {
    /// When the timer was last started.
    pub start: u64,
    /// The time accumulated before the last start.
    pub running_time: u64,
    pub running: bool,
}

/// `a - b`, or 0 where `b` is the larger.
pub open spec fn saturating_sub(a: u64, b: u64) -> u64 {
    if a >= b {
        (a - b) as u64
    } else {
        0
    }
}

/// `a + b`, or the largest value where the sum does not fit.
pub open spec fn saturating_add(a: u64, b: u64) -> u64 {
    if a + b <= u64::MAX {
        (a + b) as u64
    } else {
        u64::MAX
    }
}

impl Timer {
    /// The time that the timer has run for at instant `at`: what it had
    /// accumulated when it was last started, and the time since then if it
    /// is running. An instant before the start counts as the start.
    pub open spec fn elapsed(self, at: u64) -> u64 {
        if self.running {
            saturating_add(saturating_sub(at, self.start), self.running_time)
        } else {
            self.running_time
        }
    }

    /// Whether the timer is running at instant `at` and has run for more than `time`.
    pub open spec fn timed_out(self, time: u64, at: u64) -> bool {
        self.running && self.elapsed(at) > time
    }

    /// The timer after it was asked to start at instant `at`: a running
    /// timer as it was, a stopped one running from `at`.
    pub open spec fn started(self, at: u64) -> Timer {
        if self.running {
            self
        } else {
            Timer { start: at, running_time: self.running_time, running: true }
        }
    }

    /// A stopped timer that has accumulated nothing.
    pub open spec fn cleared(at: u64) -> Timer {
        Timer { start: at, running_time: 0, running: false }
    }

    /// A stopped timer that has accumulated nothing.
    pub fn new(at: u64) -> (timer: Timer)
        ensures
            timer == Timer::cleared(at),
    {
        Timer { start: at, running_time: 0, running: false }
    }

    /// The time that the timer has run for at instant `at`.
    pub fn now(&self, at: u64) -> (time: u64)
        ensures
            time == self.elapsed(at),
    {
        if !self.running {
            return self.running_time;
        }
        let since: u64 = if at >= self.start {
            at - self.start
        } else {
            0
        };
        if since <= u64::MAX - self.running_time {
            since + self.running_time
        } else {
            u64::MAX
        }
    }

    /// Starts the timer at instant `at`. A running timer is left as it is.
    pub fn start(&mut self, at: u64)
        ensures
            *final(self) == old(self).started(at),
    {
        if !self.running {
            self.start = at;
            self.running = true;
        }
    }

    /// Stops the timer at instant `at`, keeping the time it has run for. A
    /// stopped timer is left as it is.
    pub fn stop(&mut self, at: u64)
        ensures
            !old(self).running ==> *final(self) == *old(self),
            old(self).running ==> *final(self) == (Timer {
                start: old(self).start,
                running_time: old(self).elapsed(at),
                running: false,
            }),
            final(self).elapsed(at) == old(self).elapsed(at),
    {
        if self.running {
            self.running_time = self.now(at);
            self.running = false
        }
    }

    /// Stops the timer and forgets the time it has run for.
    pub fn reset(&mut self, at: u64)
        ensures
            *final(self) == Timer::cleared(at),
    {
        self.start = at;
        self.running_time = 0;
        self.running = false;
    }

    /// Whether the timer is running at instant `at` and has run for more than `time`.
    pub fn timeout(&self, time: u64, at: u64) -> (expired: bool)
        ensures
            expired == self.timed_out(time, at),
    {
        self.running && self.now(at) > time
    }
}

impl Default for Timer {
    fn default() -> (timer: Timer)
        ensures
            timer == Timer::cleared(0),
    {
        Timer { start: 0, running_time: 0, running: false }
    }
}

/// The timers of one server.
#[derive(Debug, Clone, Copy, PartialEq, Eq, Structural)]
pub struct Clock {
    pub start_time: Timer,
    pub server_list_ping: Timer,
    pub lobby: Timer,
    pub auto_start: Timer,
    pub stage_load_timeout: Timer,
    pub back_to_lobby_timer: Timer,
}

impl Clock {
    /// Six stopped timers that have accumulated nothing.
    pub open spec fn cleared(at: u64) -> Clock {
        Clock {
            start_time: Timer::cleared(at),
            server_list_ping: Timer::cleared(at),
            lobby: Timer::cleared(at),
            auto_start: Timer::cleared(at),
            stage_load_timeout: Timer::cleared(at),
            back_to_lobby_timer: Timer::cleared(at),
        }
    }

    /// Six stopped timers.
    pub fn new(at: u64) -> (clock: Clock)
        ensures
            clock == Clock::cleared(at),
    {
        Clock {
            start_time: Timer::new(at),
            server_list_ping: Timer::new(at),
            lobby: Timer::new(at),
            auto_start: Timer::new(at),
            stage_load_timeout: Timer::new(at),
            back_to_lobby_timer: Timer::new(at),
        }
    }

    /// The server's clock reading at instant `at`, in nanoseconds: the time
    /// that `start_time` has run for.
    pub fn now(&self, at: u64) -> (time: u64)
        ensures
            time == self.start_time.elapsed(at),
    {
        self.start_time.now(at)
    }
}

impl Default for Clock {
    fn default() -> (clock: Clock)
        ensures
            clock == Clock::cleared(0),
    {
        Clock::new(0)
    }
}

/// Match settings as they are read from the wire; the fields of
/// [`MatchConfig`] in the same order.
#[derive(Debug, Clone, Copy, PartialEq, Eq, Structural)]
pub struct Settings {
    pub stage_id: i32,
    pub laps: i32,
    pub ai_count: i32,
    pub ai_skill: i32,
    pub auto_start_time: i32,
    pub auto_start_min_players: i32,
    pub auto_return_time: i32,
    pub vote_ratio: u32,
    pub stage_rotation_mode: i32,
}

/// A racer's own timeout clock.
#[derive(Debug, Clone, Copy, PartialEq, Eq, Structural)]
pub struct Stopwatch {}

/// One connected game instance.
#[derive(Debug, Clone, PartialEq, Eq)]
pub struct Client {
    pub guid: Vec<u8>,
    pub name: String,
    pub connection: Endpoint,
    pub is_loading: bool,
    pub wants_lobby: bool,
    /// The sequence number of the next datagram sent to this client.
    pub counter: usize,
}

/// What a [`Client`] holds, as plain values.
pub struct ClientView {
    pub guid: Seq<u8>,
    pub name: Seq<char>,
    pub connection: Endpoint,
    pub is_loading: bool,
    pub wants_lobby: bool,
    pub counter: usize,
}

impl View for Client {
    type V = ClientView;

    open spec fn view(&self) -> ClientView {
        ClientView {
            guid: self.guid@,
            name: self.name@,
            connection: self.connection,
            is_loading: self.is_loading,
            wants_lobby: self.wants_lobby,
            counter: self.counter,
        }
    }
}

/// One racer. Several racers may share a client's identity; the controller
/// slot tells them apart.
#[derive(Debug, Clone, PartialEq, Eq)]
pub struct Player {
    pub guid: Vec<u8>,
    pub ctrl_type: i32,
    pub char_id: i32,
    pub ready_to_race: bool,
    pub is_racing: bool,
    pub race_timeout: Stopwatch,
    pub has_timed_out: bool,
}

/// What a [`Player`] holds, as plain values.
pub struct PlayerView {
    pub guid: Seq<u8>,
    pub ctrl_type: i32,
    pub char_id: i32,
    pub ready_to_race: bool,
    pub is_racing: bool,
    pub has_timed_out: bool,
}

impl View for Player {
    type V = PlayerView;

    open spec fn view(&self) -> PlayerView {
        PlayerView {
            guid: self.guid@,
            ctrl_type: self.ctrl_type,
            char_id: self.char_id,
            ready_to_race: self.ready_to_race,
            is_racing: self.is_racing,
            has_timed_out: self.has_timed_out,
        }
    }
}

/// The views of a roster of clients, in order.
pub open spec fn client_views(clients: Seq<Client>) -> Seq<ClientView> {
    clients.map_values(|c: Client| c@)
}

/// The views of a roster of players, in order.
pub open spec fn player_views(players: Seq<Player>) -> Seq<PlayerView> {
    players.map_values(|p: Player| p@)
}

/// Where a racer is and how it moves. Every component is the IEEE-754 bit
/// pattern of a single-precision number.
#[derive(Debug, Clone, PartialEq, Eq)]
pub struct PlayerPosition {
    pub guid: Vec<u8>,
    pub ctrl_type: CtrlType,
    pub position: [u32; 3],
    pub rotation: [u32; 4],
    pub velocity: [u32; 3],
    pub angular_velocity: [u32; 3],
    pub direction: [u32; 3],
}

/// What a [`PlayerPosition`] holds, as plain values.
pub struct PlayerPositionView {
    pub guid: Seq<u8>,
    pub ctrl_type: CtrlType,
    pub position: Seq<u32>,
    pub rotation: Seq<u32>,
    pub velocity: Seq<u32>,
    pub angular_velocity: Seq<u32>,
    pub direction: Seq<u32>,
}

impl View for PlayerPosition {
    type V = PlayerPositionView;

    open spec fn view(&self) -> PlayerPositionView {
        PlayerPositionView {
            guid: self.guid@,
            ctrl_type: self.ctrl_type,
            position: self.position@,
            rotation: self.rotation@,
            velocity: self.velocity@,
            angular_velocity: self.angular_velocity@,
            direction: self.direction@,
        }
    }
}

/// The class of a character.
#[derive(Debug, Clone, Copy, PartialEq, Eq, Structural)]
pub enum CharacterTier {
    Normal,
    Odd,
    Hypersonic,
}

} // verus!
