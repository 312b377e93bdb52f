//! The catalogue of game-state messages and the small enumerations that travel with them.
use crate::data::MatchConfig;
use vstd::prelude::*;

verus! {

/// Who a chat line is attributed to.
#[derive(Debug, Clone, Copy, PartialEq, Eq, Structural)]
pub enum ChatMessageType {
    System,
    User,
}

/// The input device that drives a player; together with the owning client's
/// identity it names one racer.
#[derive(Debug, Clone, Copy, PartialEq, Eq, Structural)]
pub enum CtrlType {
    Unassigned,
    Keyboard,
    Joystick1,
    Joystick2,
    Joystick3,
    Joystick4,
}

impl CtrlType {
    /// The slot number of a controller: -1 for `Unassigned`, 0 for the keyboard,
    /// 1 to 4 for the joysticks.
    pub open spec fn spec_index(self) -> i32 {
        match self {
            CtrlType::Unassigned => -1i32,
            CtrlType::Keyboard => 0i32,
            CtrlType::Joystick1 => 1i32,
            CtrlType::Joystick2 => 2i32,
            CtrlType::Joystick3 => 3i32,
            CtrlType::Joystick4 => 4i32,
        }
    }

    /// The controller with slot number `value`; every number outside 0..=4 is `Unassigned`.
    pub open spec fn spec_from_index(value: i32) -> CtrlType {
        if value == 0 {
            CtrlType::Keyboard
        } else if value == 1 {
            CtrlType::Joystick1
        } else if value == 2 {
            CtrlType::Joystick2
        } else if value == 3 {
            CtrlType::Joystick3
        } else if value == 4 {
            CtrlType::Joystick4
        } else {
            CtrlType::Unassigned
        }
    }

    /// The byte that stands for this controller in a movement record: the
    /// slot number, with 255 for `Unassigned`.
    pub open spec fn spec_byte(self) -> u8 {
        match self {
            CtrlType::Unassigned => 255u8,
            CtrlType::Keyboard => 0u8,
            CtrlType::Joystick1 => 1u8,
            CtrlType::Joystick2 => 2u8,
            CtrlType::Joystick3 => 3u8,
            CtrlType::Joystick4 => 4u8,
        }
    }

    /// The byte that stands for this controller in a movement record.
    pub fn byte(self) -> (byte: u8)
        ensures
            byte == self.spec_byte(),
    {
        match self {
            CtrlType::Unassigned => 255,
            CtrlType::Keyboard => 0,
            CtrlType::Joystick1 => 1,
            CtrlType::Joystick2 => 2,
            CtrlType::Joystick3 => 3,
            CtrlType::Joystick4 => 4,
        }
    }

    /// The slot number of this controller.
    pub fn index(self) -> (value: i32)
        ensures
            value == self.spec_index(),
    {
        match self {
            CtrlType::Unassigned => -1,
            CtrlType::Keyboard => 0,
            CtrlType::Joystick1 => 1,
            CtrlType::Joystick2 => 2,
            CtrlType::Joystick3 => 3,
            CtrlType::Joystick4 => 4,
        }
    }

    /// Converting a slot number to a controller and back gives the number
    /// again exactly when it names a controller, and -1 otherwise.
    pub proof fn lemma_index_roundtrip(c: CtrlType, value: i32)
        ensures
            CtrlType::spec_from_index(c.spec_index()) == c,
            0 <= value <= 4 ==> CtrlType::spec_from_index(value).spec_index() == value,
            !(0 <= value <= 4) ==> CtrlType::spec_from_index(value).spec_index() == -1,
    {
    }
}

impl From<i32> for CtrlType {
    fn from(value: i32) -> (ctrl: CtrlType) {
        match value {
            0 => CtrlType::Keyboard,
            1 => CtrlType::Joystick1,
            2 => CtrlType::Joystick2,
            3 => CtrlType::Joystick3,
            4 => CtrlType::Joystick4,
            _ => CtrlType::Unassigned,
        }
    }
}

impl vstd::std_specs::convert::FromSpecImpl<i32> for CtrlType {
    open spec fn obeys_from_spec() -> bool {
        true
    }

    open spec fn from_spec(value: i32) -> CtrlType {
        CtrlType::spec_from_index(value)
    }
}

/// The kind of game frame carried inside a user datagram.
#[derive(Debug, Clone, Copy, PartialEq, Eq, Structural)]
pub enum GameHeader {
    MatchMessage,
    InitMessage,
    PlayerMovementMessage,
}

impl GameHeader {
    /// The byte that announces this frame on the wire.
    pub open spec fn spec_code(self) -> u8 {
        match self {
            GameHeader::MatchMessage => 0u8,
            GameHeader::InitMessage => 1u8,
            GameHeader::PlayerMovementMessage => 2u8,
        }
    }

    /// The byte that announces this frame on the wire.
    pub fn code(self) -> (byte: u8)
        ensures
            byte == self.spec_code(),
    {
        match self {
            GameHeader::MatchMessage => 0,
            GameHeader::InitMessage => 1,
            GameHeader::PlayerMovementMessage => 2,
        }
    }
}

/// One game-state message. Identities are carried in their textual form;
/// fractional quantities are carried as IEEE-754 bit patterns (32 bits for
/// lap and race times of a single racer, 64 bits for `DoneRacingMessage`).
#[allow(inconsistent_fields)]
#[derive(Debug, Clone, PartialEq, Eq)]
pub enum MessageTypes {
    AutoStartTimerMessage { enabled: bool },
    ChangedReadyMessage { client_guid: String, ctrl_type: i32, ready: bool },
    CharacterChangedMessage { client_guid: String, ctrl_type: i32, new_character: i32 },
    ChatMessage { from: String, kind: ChatMessageType, text: String },
    CheckPointPassedMessage { client_guid: String, ctrl_type: i32, lap_time: u32 },
    ClientJoinedMessage { client_guid: String, client_name: String },
    ClientLeftMessage { client_guid: String },
    DoneRacingMessage { client_guid: String, ctrl_type: i32, race_time: u64, disqualified: bool },
    LoadLobbyMessage {  },
    LoadRaceMessage {  },
    PlayerJoinedMessage { client_guid: String, ctrl_type: i32, initial_character: i32 },
    PlayerLeftMessage { client_guid: String, ctrl_type: i32 },
    RaceFinishedMessage { client_guid: String, ctrl_type: i32, race_time: u32, race_position: i32 },
    RaceTimeoutMessage { client_guid: String, ctrl_type: i32, time: u32 },
    SettingsChanged { new_match_settings: MatchConfig },
    StartRaceMessage {  },
}

/// What a [`MessageTypes`] holds, as plain values.
#[allow(inconsistent_fields)]
pub enum MessageView {
    AutoStartTimerMessage { enabled: bool },
    ChangedReadyMessage { client_guid: Seq<char>, ctrl_type: i32, ready: bool },
    CharacterChangedMessage { client_guid: Seq<char>, ctrl_type: i32, new_character: i32 },
    ChatMessage { from: Seq<char>, kind: ChatMessageType, text: Seq<char> },
    CheckPointPassedMessage { client_guid: Seq<char>, ctrl_type: i32, lap_time: u32 },
    ClientJoinedMessage { client_guid: Seq<char>, client_name: Seq<char> },
    ClientLeftMessage { client_guid: Seq<char> },
    DoneRacingMessage { client_guid: Seq<char>, ctrl_type: i32, race_time: u64, disqualified: bool },
    LoadLobbyMessage {  },
    LoadRaceMessage {  },
    PlayerJoinedMessage { client_guid: Seq<char>, ctrl_type: i32, initial_character: i32 },
    PlayerLeftMessage { client_guid: Seq<char>, ctrl_type: i32 },
    RaceFinishedMessage { client_guid: Seq<char>, ctrl_type: i32, race_time: u32, race_position: i32 },
    RaceTimeoutMessage { client_guid: Seq<char>, ctrl_type: i32, time: u32 },
    SettingsChanged { new_match_settings: MatchConfig },
    StartRaceMessage {  },
}

impl View for MessageTypes {
    type V = MessageView;

    open spec fn view(&self) -> MessageView {
        match self {
            MessageTypes::AutoStartTimerMessage { enabled } => MessageView::AutoStartTimerMessage {
                enabled: *enabled,
            },
            MessageTypes::ChangedReadyMessage {
                client_guid,
                ctrl_type,
                ready,
            } => MessageView::ChangedReadyMessage {
                client_guid: client_guid@,
                ctrl_type: *ctrl_type,
                ready: *ready,
            },
            MessageTypes::CharacterChangedMessage {
                client_guid,
                ctrl_type,
                new_character,
            } => MessageView::CharacterChangedMessage {
                client_guid: client_guid@,
                ctrl_type: *ctrl_type,
                new_character: *new_character,
            },
            MessageTypes::ChatMessage { from, kind, text } => MessageView::ChatMessage {
                from: from@,
                kind: *kind,
                text: text@,
            },
            MessageTypes::CheckPointPassedMessage {
                client_guid,
                ctrl_type,
                lap_time,
            } => MessageView::CheckPointPassedMessage {
                client_guid: client_guid@,
                ctrl_type: *ctrl_type,
                lap_time: *lap_time,
            },
            MessageTypes::ClientJoinedMessage {
                client_guid,
                client_name,
            } => MessageView::ClientJoinedMessage {
                client_guid: client_guid@,
                client_name: client_name@,
            },
            MessageTypes::ClientLeftMessage { client_guid } => MessageView::ClientLeftMessage {
                client_guid: client_guid@,
            },
            MessageTypes::DoneRacingMessage {
                client_guid,
                ctrl_type,
                race_time,
                disqualified,
            } => MessageView::DoneRacingMessage {
                client_guid: client_guid@,
                ctrl_type: *ctrl_type,
                race_time: *race_time,
                disqualified: *disqualified,
            },
            MessageTypes::LoadLobbyMessage {  } => MessageView::LoadLobbyMessage {  },
            MessageTypes::LoadRaceMessage {  } => MessageView::LoadRaceMessage {  },
            MessageTypes::PlayerJoinedMessage {
                client_guid,
                ctrl_type,
                initial_character,
            } => MessageView::PlayerJoinedMessage {
                client_guid: client_guid@,
                ctrl_type: *ctrl_type,
                initial_character: *initial_character,
            },
            MessageTypes::PlayerLeftMessage {
                client_guid,
                ctrl_type,
            } => MessageView::PlayerLeftMessage {
                client_guid: client_guid@,
                ctrl_type: *ctrl_type,
            },
            MessageTypes::RaceFinishedMessage {
                client_guid,
                ctrl_type,
                race_time,
                race_position,
            } => MessageView::RaceFinishedMessage {
                client_guid: client_guid@,
                ctrl_type: *ctrl_type,
                race_time: *race_time,
                race_position: *race_position,
            },
            MessageTypes::RaceTimeoutMessage {
                client_guid,
                ctrl_type,
                time,
            } => MessageView::RaceTimeoutMessage {
                client_guid: client_guid@,
                ctrl_type: *ctrl_type,
                time: *time,
            },
            MessageTypes::SettingsChanged {
                new_match_settings,
            } => MessageView::SettingsChanged { new_match_settings: *new_match_settings },
            MessageTypes::StartRaceMessage {  } => MessageView::StartRaceMessage {  },
        }
    }
}

impl MessageTypes {
    /// The bare name of the variant, as it appears in the discriminator of
    /// the message's textual form.
    pub open spec fn spec_name(&self) -> Seq<char> {
        match self {
            MessageTypes::AutoStartTimerMessage { .. } => "AutoStartTimerMessage"@,
            MessageTypes::ChangedReadyMessage { .. } => "ChangedReadyMessage"@,
            MessageTypes::CharacterChangedMessage { .. } => "CharacterChangedMessage"@,
            MessageTypes::ChatMessage { .. } => "ChatMessage"@,
            MessageTypes::CheckPointPassedMessage { .. } => "CheckPointPassedMessage"@,
            MessageTypes::ClientJoinedMessage { .. } => "ClientJoinedMessage"@,
            MessageTypes::ClientLeftMessage { .. } => "ClientLeftMessage"@,
            MessageTypes::DoneRacingMessage { .. } => "DoneRacingMessage"@,
            MessageTypes::LoadLobbyMessage { .. } => "LoadLobbyMessage"@,
            MessageTypes::LoadRaceMessage { .. } => "LoadRaceMessage"@,
            MessageTypes::PlayerJoinedMessage { .. } => "PlayerJoinedMessage"@,
            MessageTypes::PlayerLeftMessage { .. } => "PlayerLeftMessage"@,
            MessageTypes::RaceFinishedMessage { .. } => "RaceFinishedMessage"@,
            MessageTypes::RaceTimeoutMessage { .. } => "RaceTimeoutMessage"@,
            MessageTypes::SettingsChanged { .. } => "SettingsChanged"@,
            MessageTypes::StartRaceMessage { .. } => "StartRaceMessage"@,
        }
    }

    /// The bare name of the variant.
    pub fn as_string(&self) -> (name: &'static str)
        ensures
            name@ == self.spec_name(),
    {
        match self {
            MessageTypes::AutoStartTimerMessage { .. } => "AutoStartTimerMessage",
            MessageTypes::ChangedReadyMessage { .. } => "ChangedReadyMessage",
            MessageTypes::CharacterChangedMessage { .. } => "CharacterChangedMessage",
            MessageTypes::ChatMessage { .. } => "ChatMessage",
            MessageTypes::CheckPointPassedMessage { .. } => "CheckPointPassedMessage",
            MessageTypes::ClientJoinedMessage { .. } => "ClientJoinedMessage",
            MessageTypes::ClientLeftMessage { .. } => "ClientLeftMessage",
            MessageTypes::DoneRacingMessage { .. } => "DoneRacingMessage",
            MessageTypes::LoadLobbyMessage { .. } => "LoadLobbyMessage",
            MessageTypes::LoadRaceMessage { .. } => "LoadRaceMessage",
            MessageTypes::PlayerJoinedMessage { .. } => "PlayerJoinedMessage",
            MessageTypes::PlayerLeftMessage { .. } => "PlayerLeftMessage",
            MessageTypes::RaceFinishedMessage { .. } => "RaceFinishedMessage",
            MessageTypes::RaceTimeoutMessage { .. } => "RaceTimeoutMessage",
            MessageTypes::SettingsChanged { .. } => "SettingsChanged",
            MessageTypes::StartRaceMessage { .. } => "StartRaceMessage",
        }
    }
}

} // verus!
