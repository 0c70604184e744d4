//! From a packet to what it says: the decoder of the replay protocol.

use crate::arena::{arena_from_tree, arena_of, arena_view, ArenaState, ArenaView};
use crate::packet::{
    ArgValue, CruiseStatePacket, EntityData, EntityInfoPacket, EntityMethodPacket, MapPacket,
    Packet, PacketType, PropertyBlob, RawPayload,
};
use crate::pickle::{bytes_debug, pickled, push_bytes_debug, with_text, PickleValue};
use crate::roster::{player_views, players_of, PlayerView, ReceivedPlayer};
use crate::text::{
    decimal, push_decimal, push_text, same_text, text_of, utf8_text,
};
use crate::version::Version;
use crate::wire::{le_u32_at, read_u32};
use std::collections::HashMap;
use vstd::prelude::*;
use vstd::string::*;
use vstd::utf8::valid_utf8;

verus! {

/// The voice lines that a player can send.
#[derive(Debug, Clone, Copy, PartialEq, Eq)]
pub enum VoiceLine {
    IntelRequired,
    FairWinds,
    Wilco,
    Negative,
    WellDone,
    Curses,
    UsingRadar,
    UsingHydroSearch,
    DefendTheBase,
    SetSmokeScreen,
    /// "Provide anti-aircraft support"
    ProvideAntiAircraft,
    /// With the avatar of the player called out, if one is.
    RequestingSupport(Option<u32>),
    /// With the avatar of the player called out, if one is.
    Retreat(Option<i32>),
    /// The square as (letter, number), both counted from zero: F2 is (5, 1).
    AttentionToSquare((u32, u32)),
    /// With the avatar of the target.
    ConcentrateFire(i32),
}

/// The ribbons that a player earns.
#[derive(Debug, PartialEq, Eq, Hash, Clone, Copy, Structural)]
pub enum Ribbon {
    PlaneShotDown,
    Incapacitation,
    SetFire,
    Citadel,
    SecondaryHit,
    OverPenetration,
    Penetration,
    NonPenetration,
    Ricochet,
    TorpedoProtectionHit,
    Captured,
    AssistedInCapture,
    Spotted,
    Destroyed,
    TorpedoHit,
    Defended,
    Flooding,
    DiveBombPenetration,
    RocketPenetration,
    RocketNonPenetration,
    RocketTorpedoProtectionHit,
    DepthChargeHit,
    ShotDownByAircraft,
    BuffSeized,
    SonarOneHit,
    SonarTwoHits,
    SonarNeutralized,
    Unknown(i8),
}

/// What destroyed a ship.
#[derive(Debug, PartialEq, Eq, Hash, Clone, Copy, Structural)]
pub enum DeathCause {
    Secondaries,
    Artillery,
    Fire,
    Flooding,
    Torpedo,
    DiveBomber,
    AerialRocket,
    AerialTorpedo,
    Detonation,
    Ramming,
    DepthCharge,
    SkipBombs,
    Unknown(u32),
}

/// The properties of a player in a roster, each with a number of its own.
#[derive(Debug, PartialEq, Eq, Hash, Clone, Copy, Structural)]
pub enum ReplayPlayerProperty {
    AccountId,
    AntiAbuseEnabled,
    AvatarId,
    CamouflageInfo,
    ClanColor,
    ClanId,
    ClanTag,
    CrewParams,
    UNKNOWN8,
    DogTag,
    FragsCount,
    Id,
    InvitationsEnabled,
    IsAbuser,
    IsAlive,
    IsBot,
    IsClientLoaded,
    IsConnected,
    IsHidden,
    IsLeaver,
    IsPreBattleOwner,
    IsTShooter,
    KilledBuildingsCount,
    IsCookie,
    UNKNOWN24,
    MaxHealth,
    Name,
    PlayerMode,
    PreBattleIdOnStart,
    PreBattleSign,
    PreBattleId,
    Realm,
    ShipComponents,
    ShipConfigDump,
    ShipId,
    ShipParamsId,
    SkinId,
    TeamId,
    TtkStatus,
}

impl ReplayPlayerProperty {
    /// The number of the property. The numbers run from 0 to 39 in the order
    /// of the properties, and no property has the number 11.
    pub open spec fn number(self) -> u32 {
        match self {
            ReplayPlayerProperty::AccountId => 0,
            ReplayPlayerProperty::AntiAbuseEnabled => 1,
            ReplayPlayerProperty::AvatarId => 2,
            ReplayPlayerProperty::CamouflageInfo => 3,
            ReplayPlayerProperty::ClanColor => 4,
            ReplayPlayerProperty::ClanId => 5,
            ReplayPlayerProperty::ClanTag => 6,
            ReplayPlayerProperty::CrewParams => 7,
            ReplayPlayerProperty::UNKNOWN8 => 8,
            ReplayPlayerProperty::DogTag => 9,
            ReplayPlayerProperty::FragsCount => 10,
            ReplayPlayerProperty::Id => 12,
            ReplayPlayerProperty::InvitationsEnabled => 13,
            ReplayPlayerProperty::IsAbuser => 14,
            ReplayPlayerProperty::IsAlive => 15,
            ReplayPlayerProperty::IsBot => 16,
            ReplayPlayerProperty::IsClientLoaded => 17,
            ReplayPlayerProperty::IsConnected => 18,
            ReplayPlayerProperty::IsHidden => 19,
            ReplayPlayerProperty::IsLeaver => 20,
            ReplayPlayerProperty::IsPreBattleOwner => 21,
            ReplayPlayerProperty::IsTShooter => 22,
            ReplayPlayerProperty::KilledBuildingsCount => 23,
            ReplayPlayerProperty::IsCookie => 24,
            ReplayPlayerProperty::UNKNOWN24 => 25,
            ReplayPlayerProperty::MaxHealth => 26,
            ReplayPlayerProperty::Name => 27,
            ReplayPlayerProperty::PlayerMode => 28,
            ReplayPlayerProperty::PreBattleIdOnStart => 29,
            ReplayPlayerProperty::PreBattleSign => 30,
            ReplayPlayerProperty::PreBattleId => 31,
            ReplayPlayerProperty::Realm => 32,
            ReplayPlayerProperty::ShipComponents => 33,
            ReplayPlayerProperty::ShipConfigDump => 34,
            ReplayPlayerProperty::ShipId => 35,
            ReplayPlayerProperty::ShipParamsId => 36,
            ReplayPlayerProperty::SkinId => 37,
            ReplayPlayerProperty::TeamId => 38,
            ReplayPlayerProperty::TtkStatus => 39,
        }
    }

    /// The number of the property, as a key of a roster of numbered blobs.
    pub fn id(self) -> (r: u32)
        ensures
            r == self.number(),
    {
        match self {
            ReplayPlayerProperty::AccountId => 0,
            ReplayPlayerProperty::AntiAbuseEnabled => 1,
            ReplayPlayerProperty::AvatarId => 2,
            ReplayPlayerProperty::CamouflageInfo => 3,
            ReplayPlayerProperty::ClanColor => 4,
            ReplayPlayerProperty::ClanId => 5,
            ReplayPlayerProperty::ClanTag => 6,
            ReplayPlayerProperty::CrewParams => 7,
            ReplayPlayerProperty::UNKNOWN8 => 8,
            ReplayPlayerProperty::DogTag => 9,
            ReplayPlayerProperty::FragsCount => 10,
            ReplayPlayerProperty::Id => 12,
            ReplayPlayerProperty::InvitationsEnabled => 13,
            ReplayPlayerProperty::IsAbuser => 14,
            ReplayPlayerProperty::IsAlive => 15,
            ReplayPlayerProperty::IsBot => 16,
            ReplayPlayerProperty::IsClientLoaded => 17,
            ReplayPlayerProperty::IsConnected => 18,
            ReplayPlayerProperty::IsHidden => 19,
            ReplayPlayerProperty::IsLeaver => 20,
            ReplayPlayerProperty::IsPreBattleOwner => 21,
            ReplayPlayerProperty::IsTShooter => 22,
            ReplayPlayerProperty::KilledBuildingsCount => 23,
            ReplayPlayerProperty::IsCookie => 24,
            ReplayPlayerProperty::UNKNOWN24 => 25,
            ReplayPlayerProperty::MaxHealth => 26,
            ReplayPlayerProperty::Name => 27,
            ReplayPlayerProperty::PlayerMode => 28,
            ReplayPlayerProperty::PreBattleIdOnStart => 29,
            ReplayPlayerProperty::PreBattleSign => 30,
            ReplayPlayerProperty::PreBattleId => 31,
            ReplayPlayerProperty::Realm => 32,
            ReplayPlayerProperty::ShipComponents => 33,
            ReplayPlayerProperty::ShipConfigDump => 34,
            ReplayPlayerProperty::ShipId => 35,
            ReplayPlayerProperty::ShipParamsId => 36,
            ReplayPlayerProperty::SkinId => 37,
            ReplayPlayerProperty::TeamId => 38,
            ReplayPlayerProperty::TtkStatus => 39,
        }
    }

    /// The number of the property, as a key of a roster of value trees.
    pub fn key(self) -> (r: i64)
        ensures
            r == self.number(),
    {
        self.id() as i64
    }
}

impl From<ReplayPlayerProperty> for i64 {
    fn from(prop: ReplayPlayerProperty) -> (r: i64) {
        prop.key()
    }
}

impl vstd::std_specs::convert::FromSpecImpl<ReplayPlayerProperty> for i64 {
    open spec fn obeys_from_spec() -> bool {
        true
    }

    open spec fn from_spec(prop: ReplayPlayerProperty) -> i64 {
        prop.number() as i64
    }
}

impl From<ReplayPlayerProperty> for u32 {
    fn from(prop: ReplayPlayerProperty) -> (r: u32) {
        prop.id()
    }
}

impl vstd::std_specs::convert::FromSpecImpl<ReplayPlayerProperty> for u32 {
    open spec fn obeys_from_spec() -> bool {
        true
    }

    open spec fn from_spec(prop: ReplayPlayerProperty) -> u32 {
        prop.number()
    }
}

/// The consumables that a ship can use.
#[derive(Debug, Clone, Copy, PartialEq, Eq, Structural)]
pub enum Consumable {
    DamageControl,
    SpottingAircraft,
    DefensiveAntiAircraft,
    SpeedBoost,
    RepairParty,
    CatapultFighter,
    MainBatteryReloadBooster,
    TorpedoReloadBooster,
    Smoke,
    Radar,
    HydroacousticSearch,
    Hydrophone,
    EnhancedRudders,
    ReserveBattery,
    Unknown(i8),
}

/// The modes of the camera.
#[derive(Debug, Clone, Copy, PartialEq, Eq, Structural)]
pub enum CameraMode {
    OverheadMap,
    FollowingShells,
    FollowingPlanes,
    FollowingShip,
    FollowingSubmarine,
    FreeFlying,
    /// A mode that this library has no name for, by its code.
    Unknown(u32),
}

/// The fixed control settings of a ship.
#[derive(Debug, Clone, Copy, PartialEq, Eq, Structural)]
pub enum CruiseState {
    /// From -1 for reverse to 4 for full power ahead.
    Throttle,
    /// As set with the keys for a fixed rudder: from -2, full to port,
    /// through 0 to 2, full to starboard.
    Rudder,
    /// The dive depth, in steps from 0 at the surface to 7.
    DiveDepth,
    /// A setting that this library has no name for, by its code.
    Unknown(u32),
}

/// Damage that one attacker has dealt.
#[derive(Debug, Clone, Copy, PartialEq, Eq, Structural)]
pub struct DamageReceived {
    /// The ship of the attacker.
    pub aggressor: i32,
    /// The damage: a 32-bit float, by its bit pattern.
    pub damage: u32,
}

/// A ship's new place on the minimap. The heading and the two coordinates
/// are 32-bit floats, held by their bit patterns.
#[derive(Debug, Clone, Copy, PartialEq, Eq, Structural)]
pub struct MinimapUpdate {
    pub entity_id: i32,
    /// Whether the ship leaves the minimap.
    pub disappearing: bool,
    /// In degrees, clockwise from the top.
    pub heading: u32,
    /// From 0 at the left edge to 1 at the right.
    pub x: u32,
    /// From 0 at the bottom edge to 1 at the top.
    pub y: u32,
    pub unknown: bool,
}

/// Why a packet could not be decoded.
#[derive(Debug, Clone, Copy, PartialEq, Eq, Structural)]
pub enum DecodeError {
    /// The call has fewer arguments than its method takes.
    MissingArgument,
    /// An argument is of another type than its method takes.
    ArgumentType,
    /// A string argument is no well-formed UTF-8.
    ArgumentText,
    /// A blob argument is no well-formed pickle.
    ValueTree,
    /// A value tree has another shape than its method gives it.
    TreeShape,
    /// An entity lacks a property of a player, or holds it in another form.
    Property,
}

impl DecodeError {
    /// The error in words.
    pub open spec fn text(self) -> Seq<char> {
        match self {
            DecodeError::MissingArgument => "an argument is missing"@,
            DecodeError::ArgumentType => "an argument has the wrong type"@,
            DecodeError::ArgumentText => "a string argument is not UTF-8"@,
            DecodeError::ValueTree => "a blob argument is not a pickle"@,
            DecodeError::TreeShape => "a value tree has the wrong shape"@,
            DecodeError::Property => "a player property is missing or malformed"@,
        }
    }

    /// The error in words.
    pub fn describe(&self) -> (r: &'static str)
        ensures
            r@ == self.text(),
    {
        match self {
            DecodeError::MissingArgument => "an argument is missing",
            DecodeError::ArgumentType => "an argument has the wrong type",
            DecodeError::ArgumentText => "a string argument is not UTF-8",
            DecodeError::ValueTree => "a blob argument is not a pickle",
            DecodeError::TreeShape => "a value tree has the wrong shape",
            DecodeError::Property => "a player property is missing or malformed",
        }
    }
}

/// The camera mode of a code: one of the six known modes, else the code kept.
pub open spec fn camera_mode_of(code: u32) -> CameraMode {
    if code == 3 {
        CameraMode::OverheadMap
    } else if code == 5 {
        CameraMode::FollowingShells
    } else if code == 6 {
        CameraMode::FollowingPlanes
    } else if code == 8 {
        CameraMode::FollowingShip
    } else if code == 9 {
        CameraMode::FreeFlying
    } else if code == 11 {
        CameraMode::FollowingSubmarine
    } else {
        CameraMode::Unknown(code)
    }
}

/// The control setting of a code: one of the three known ones, else the
/// code kept.
pub open spec fn cruise_state_of(code: u32) -> CruiseState {
    if code == 0 {
        CruiseState::Throttle
    } else if code == 1 {
        CruiseState::Rudder
    } else if code == 2 {
        CruiseState::DiveDepth
    } else {
        CruiseState::Unknown(code)
    }
}

impl CameraMode {
    /// The camera mode of a code. A code without a name is kept as
    /// `Unknown`, never refused.
    pub fn from_code(code: u32) -> (r: CameraMode)
        ensures
            r == camera_mode_of(code),
    {
        if code == 3 {
            CameraMode::OverheadMap
        } else if code == 5 {
            CameraMode::FollowingShells
        } else if code == 6 {
            CameraMode::FollowingPlanes
        } else if code == 8 {
            CameraMode::FollowingShip
        } else if code == 9 {
            CameraMode::FreeFlying
        } else if code == 11 {
            CameraMode::FollowingSubmarine
        } else {
            CameraMode::Unknown(code)
        }
    }
}

impl CruiseState {
    /// The control setting of a code. A code without a name is kept as
    /// `Unknown`, never refused.
    pub fn from_code(code: u32) -> (r: CruiseState)
        ensures
            r == cruise_state_of(code),
    {
        if code == 0 {
            CruiseState::Throttle
        } else if code == 1 {
            CruiseState::Rudder
        } else if code == 2 {
            CruiseState::DiveDepth
        } else {
            CruiseState::Unknown(code)
        }
    }
}

/// What a packet says.
#[derive(Debug)]
#[allow(inconsistent_fields)]
pub enum DecodedPacketPayload<'a> {
    /// A chat message in text.
    Chat {
        entity_id: u32,
        /// The number of the player who sent it.
        sender_id: i32,
        /// Whom it is for: the division, the team, or all.
        audience: &'a str,
        message: &'a str,
    },
    /// A voice line.
    VoiceLine {
        /// The avatar of the player who sent it.
        sender_id: i32,
        /// Whether all see it, or the team only.
        is_global: bool,
        message: VoiceLine,
    },
    /// A ribbon that the player earned.
    Ribbon(Ribbon),
    /// The place of an object.
    Position(&'a RawPayload),
    /// The place of the player's own object or camera.
    PlayerOrientation(&'a RawPayload),
    /// Counters of damage: a label of two parts, then the number of hits and
    /// the damage added, the damage a 64-bit float by its bit pattern.
    DamageStat(Vec<((i64, i64), (i64, u64))>),
    /// A ship was destroyed; killer and victim are ships, not avatars.
    ShipDestroyed { killer: i32, victim: i32, cause: DeathCause },
    /// A method call that this library has no reading for.
    EntityMethod(&'a EntityMethodPacket),
    EntityProperty(&'a RawPayload),
    BasePlayerCreate(&'a RawPayload),
    CellPlayerCreate(&'a RawPayload),
    EntityEnter(&'a RawPayload),
    EntityLeave(&'a RawPayload),
    EntityCreate(&'a RawPayload),
    /// The roster of the battle, sent when the arena is set up.
    OnArenaStateReceived {
        arg0: i64,
        arg1: i8,
        /// The state of the arena's entities.
        arg2: ArenaState,
        /// The players of the battle.
        players: Vec<ReceivedPlayer>,
    },
    CheckPing(u64),
    /// A ship took damage from one or more attackers.
    DamageReceived { victim: u32, aggressors: Vec<DamageReceived> },
    /// New places on the minimap.
    MinimapUpdate { updates: Vec<MinimapUpdate>, arg1: &'a Vec<ArgValue> },
    /// A change deep inside a property of an entity.
    PropertyUpdate(&'a RawPayload),
    /// The battle is over.
    BattleEnd { winning_team: i8, unknown: u8 },
    /// A consumable was set off; the duration is a 32-bit float by its bit
    /// pattern.
    Consumable { entity: u32, consumable: Consumable, duration: u32 },
    /// One of the fixed control settings changed.
    CruiseState { state: CruiseState, value: i32 },
    GameMap(&'a MapPacket),
    /// The version of the game, as the replay spells it.
    Version(String),
    Camera(&'a RawPayload),
    CameraMode(CameraMode),
    /// Whether the player looks around freely.
    CameraFreeLook(bool),
    /// A packet of a kind that this library does not know.
    Unknown(&'a Vec<u8>),
    /// A packet of a known kind whose payload could not be read.
    Invalid(&'a RawPayload),
    /// Under audit: something in the packet that deserves a look.
    Audit(String),
    /// The players among the entities of the battle.
    EntityInfo { players: Vec<ReceivedPlayer> },
}

/// The mathematical model of what a packet says.
#[allow(inconsistent_fields)]
pub enum DecodedView {
    Chat { entity_id: u32, sender_id: i32, audience: Seq<char>, message: Seq<char> },
    VoiceLine { sender_id: i32, is_global: bool, message: VoiceLine },
    Ribbon(Ribbon),
    Position(RawPayload),
    PlayerOrientation(RawPayload),
    DamageStat(Seq<((i64, i64), (i64, u64))>),
    ShipDestroyed { killer: i32, victim: i32, cause: DeathCause },
    EntityMethod(EntityMethodPacket),
    EntityProperty(RawPayload),
    BasePlayerCreate(RawPayload),
    CellPlayerCreate(RawPayload),
    EntityEnter(RawPayload),
    EntityLeave(RawPayload),
    EntityCreate(RawPayload),
    OnArenaStateReceived {
        arg0: i64,
        arg1: i8,
        arg2: ArenaView,
        players: Seq<PlayerView>,
    },
    CheckPing(u64),
    DamageReceived { victim: u32, aggressors: Seq<DamageReceived> },
    MinimapUpdate { updates: Seq<MinimapUpdate>, arg1: Seq<ArgValue> },
    PropertyUpdate(RawPayload),
    BattleEnd { winning_team: i8, unknown: u8 },
    Consumable { entity: u32, consumable: Consumable, duration: u32 },
    CruiseState { state: CruiseState, value: i32 },
    GameMap(MapPacket),
    Version(Seq<char>),
    Camera(RawPayload),
    CameraMode(CameraMode),
    CameraFreeLook(bool),
    Unknown(Seq<u8>),
    Invalid(RawPayload),
    Audit(Seq<char>),
    EntityInfo { players: Seq<PlayerView> },
}

impl<'a> View for DecodedPacketPayload<'a> {
    type V = DecodedView;

    open spec fn view(&self) -> DecodedView {
        match *self {
            DecodedPacketPayload::Chat { entity_id, sender_id, audience, message } => {
                DecodedView::Chat { entity_id, sender_id, audience: audience@, message: message@ }
            },
            DecodedPacketPayload::VoiceLine { sender_id, is_global, message } => {
                DecodedView::VoiceLine { sender_id, is_global, message }
            },
            DecodedPacketPayload::Ribbon(r) => DecodedView::Ribbon(r),
            DecodedPacketPayload::Position(p) => DecodedView::Position(*p),
            DecodedPacketPayload::PlayerOrientation(p) => DecodedView::PlayerOrientation(*p),
            DecodedPacketPayload::DamageStat(v) => DecodedView::DamageStat(v@),
            DecodedPacketPayload::ShipDestroyed { killer, victim, cause } => {
                DecodedView::ShipDestroyed { killer, victim, cause }
            },
            DecodedPacketPayload::EntityMethod(p) => DecodedView::EntityMethod(*p),
            DecodedPacketPayload::EntityProperty(p) => DecodedView::EntityProperty(*p),
            DecodedPacketPayload::BasePlayerCreate(p) => DecodedView::BasePlayerCreate(*p),
            DecodedPacketPayload::CellPlayerCreate(p) => DecodedView::CellPlayerCreate(*p),
            DecodedPacketPayload::EntityEnter(p) => DecodedView::EntityEnter(*p),
            DecodedPacketPayload::EntityLeave(p) => DecodedView::EntityLeave(*p),
            DecodedPacketPayload::EntityCreate(p) => DecodedView::EntityCreate(*p),
            DecodedPacketPayload::OnArenaStateReceived { arg0, arg1, arg2, players } => {
                DecodedView::OnArenaStateReceived {
                    arg0,
                    arg1,
                    arg2: arena_view(arg2@),
                    players: player_views(players@),
                }
            },
            DecodedPacketPayload::CheckPing(n) => DecodedView::CheckPing(n),
            DecodedPacketPayload::DamageReceived { victim, aggressors } => {
                DecodedView::DamageReceived { victim, aggressors: aggressors@ }
            },
            DecodedPacketPayload::MinimapUpdate { updates, arg1 } => {
                DecodedView::MinimapUpdate { updates: updates@, arg1: arg1@ }
            },
            DecodedPacketPayload::PropertyUpdate(p) => DecodedView::PropertyUpdate(*p),
            DecodedPacketPayload::BattleEnd { winning_team, unknown } => {
                DecodedView::BattleEnd { winning_team, unknown }
            },
            DecodedPacketPayload::Consumable { entity, consumable, duration } => {
                DecodedView::Consumable { entity, consumable, duration }
            },
            DecodedPacketPayload::CruiseState { state, value } => {
                DecodedView::CruiseState { state, value }
            },
            DecodedPacketPayload::GameMap(m) => DecodedView::GameMap(*m),
            DecodedPacketPayload::Version(v) => DecodedView::Version(v@),
            DecodedPacketPayload::Camera(p) => DecodedView::Camera(*p),
            DecodedPacketPayload::CameraMode(m) => DecodedView::CameraMode(m),
            DecodedPacketPayload::CameraFreeLook(b) => DecodedView::CameraFreeLook(b),
            DecodedPacketPayload::Unknown(b) => DecodedView::Unknown(b@),
            DecodedPacketPayload::Invalid(p) => DecodedView::Invalid(*p),
            DecodedPacketPayload::Audit(t) => DecodedView::Audit(t@),
            DecodedPacketPayload::EntityInfo { players } => {
                DecodedView::EntityInfo { players: player_views(players@) }
            },
        }
    }
}

/// The model of the outcome of a decoding.
pub open spec fn outcome_view(r: Result<DecodedPacketPayload, DecodeError>) -> Result<
    DecodedView,
    DecodeError,
> {
    match r {
        Ok(p) => Ok(p@),
        Err(e) => Err(e),
    }
}

/// What becomes of a packet that cannot be decoded: under audit a note that
/// names what was being read and what was wrong, else the failure itself.
pub open spec fn audited(audit: bool, what: Seq<char>, r: Result<DecodedView, DecodeError>)
    -> Result<DecodedView, DecodeError> {
    match r {
        Err(e) => if audit {
            Ok(DecodedView::Audit(what + ": "@ + e.text()))
        } else {
            Err(e)
        },
        Ok(d) => Ok(d),
    }
}

/// A chat message, from the arguments of `onChatMessageRegular`: the
/// sender's number, the audience and the text.
pub open spec fn chat_decoded(entity_id: u32, args: Seq<ArgValue>) -> Result<
    DecodedView,
    DecodeError,
> {
    if args.len() < 3 {
        Err(DecodeError::MissingArgument)
    } else {
        match (args[0], args[1], args[2]) {
            (ArgValue::Int32(sender_id), ArgValue::Str(audience), ArgValue::Str(message)) => {
                if valid_utf8(audience@) && valid_utf8(message@) {
                    Ok(
                        DecodedView::Chat {
                            entity_id,
                            sender_id,
                            audience: text_of(audience@),
                            message: text_of(message@),
                        },
                    )
                } else {
                    Err(DecodeError::ArgumentText)
                }
            },
            _ => Err(DecodeError::ArgumentType),
        }
    }
}

/// A roster, from the arguments of `onArenaStateReceived`: two numbers, then
/// the pickled state of the arena's entities and the pickled list of players.
/// The players are read from their tree with every run of UTF-8 bytes in it
/// taken as text.
pub open spec fn arena_state_decoded(args: Seq<ArgValue>) -> Result<DecodedView, DecodeError> {
    if args.len() < 4 {
        Err(DecodeError::MissingArgument)
    } else {
        match (args[0], args[1], args[2], args[3]) {
            (
                ArgValue::Int64(arg0),
                ArgValue::Int8(arg1),
                ArgValue::Blob(state),
                ArgValue::Blob(roster),
            ) => match (pickled(state@), pickled(roster@)) {
                (Some(state), Some(roster)) => match (
                    arena_of(state),
                    players_of(with_text(roster)),
                ) {
                    (Some(arg2), Some(players)) => Ok(
                        DecodedView::OnArenaStateReceived { arg0, arg1, arg2, players },
                    ),
                    _ => Err(DecodeError::TreeShape),
                },
                _ => Err(DecodeError::ValueTree),
            },
            _ => Err(DecodeError::ArgumentType),
        }
    }
}

/// What a method call says: a chat message or a roster where the method is
/// the one for it, else the call itself, handed on.
pub open spec fn entity_method_decoded(audit: bool, packet: EntityMethodPacket) -> Result<
    DecodedView,
    DecodeError,
> {
    if packet.method@ == "onChatMessageRegular"@ {
        audited(audit, packet.method@, chat_decoded(packet.entity_id, packet.args@))
    } else if packet.method@ == "onArenaStateReceived"@ {
        audited(audit, packet.method@, arena_state_decoded(packet.args@))
    } else {
        Ok(DecodedView::EntityMethod(packet))
    }
}

/// The text that an entity holds under a number, if it holds well-formed
/// UTF-8 there.
pub open spec fn blob_text(data: Map<u32, PropertyBlob>, number: u32) -> Option<Seq<char>> {
    if data.contains_key(number) && valid_utf8(data[number].blob@) {
        Some(text_of(data[number].blob@))
    } else {
        None
    }
}

/// The number that an entity holds under a number, if it holds four bytes
/// there: they spell it, least significant byte first.
pub open spec fn blob_number(data: Map<u32, PropertyBlob>, number: u32) -> Option<i64> {
    if data.contains_key(number) && data[number].blob@.len() == 4 {
        Some(le_u32_at(data[number].blob@, 0) as i64)
    } else {
        None
    }
}

/// The player that the properties of an entity describe: name (27) and clan
/// tag (6) as texts; avatar (2), ship (35), player number (12), team (38) and
/// health (26) as numbers. No dump of the properties comes with it.
pub open spec fn entity_player_of(data: Map<u32, PropertyBlob>) -> Option<PlayerView> {
    match (
        blob_text(data, 27),
        blob_text(data, 6),
        blob_number(data, 2),
        blob_number(data, 35),
        blob_number(data, 12),
        blob_number(data, 38),
        blob_number(data, 26),
    ) {
        (
            Some(username),
            Some(clan),
            Some(avatarid),
            Some(shipid),
            Some(playerid),
            Some(teamid),
            Some(health),
        ) => Some(
            PlayerView {
                username,
                clan,
                avatarid,
                shipid,
                playerid,
                teamid,
                health,
                raw: Map::empty(),
            },
        ),
        _ => None,
    }
}

/// The players among the first `n` entities: one for each entity that is no
/// bot, in their order, if each of those describes a player.
pub open spec fn entity_players_upto(entities: Seq<EntityData>, n: nat) -> Option<Seq<PlayerView>>
    decreases n,
{
    if n == 0 || n > entities.len() {
        Some(Seq::empty())
    } else {
        match entity_players_upto(entities, (n - 1) as nat) {
            None => None,
            Some(players) => if entities[n - 1].is_bot {
                Some(players)
            } else {
                match entity_player_of(entities[n - 1].data@) {
                    Some(p) => Some(players.push(p)),
                    None => None,
                }
            },
        }
    }
}

/// What a packet about the entities of the battle says: its players.
pub open spec fn entity_info_decoded(packet: EntityInfoPacket) -> Result<DecodedView, DecodeError> {
    match entity_players_upto(packet.entities@, packet.entities@.len()) {
        Some(players) => Ok(DecodedView::EntityInfo { players }),
        None => Err(DecodeError::Property),
    }
}

/// What a change of the camera mode says: the mode of the code. A code
/// without a name is kept as `Unknown`, under audit as outside of it.
pub open spec fn camera_mode_decoded(code: u32) -> DecodedView {
    DecodedView::CameraMode(camera_mode_of(code))
}

/// What a change of the free look says: 0 is off, 1 is on. Any other code
/// becomes a note under audit, and counts as on else.
pub open spec fn free_look_decoded(audit: bool, code: u8) -> DecodedView {
    if code == 0 {
        DecodedView::CameraFreeLook(false)
    } else if code == 1 || !audit {
        DecodedView::CameraFreeLook(true)
    } else {
        DecodedView::Audit("CameraFreeLook("@ + decimal(code as nat) + ")"@)
    }
}

/// What a change of a control setting says: the setting of the code, with
/// its value. A code without a name is kept as `Unknown`, under audit as
/// outside of it.
pub open spec fn cruise_state_decoded(packet: CruiseStatePacket) -> DecodedView {
    DecodedView::CruiseState { state: cruise_state_of(packet.key), value: packet.value }
}

/// The bytes of the unit matrix of four by four 32-bit floats.
pub open spec fn unit_matrix() -> Seq<u8> {
    Seq::new(
        64,
        |i: int|
            if i % 20 == 2 {
                128u8
            } else if i % 20 == 3 {
                63u8
            } else {
                0u8
            },
    )
}

/// What a packet about the map says. Under audit a flag that is neither 0
/// nor 1, or a matrix that is not the unit matrix, becomes a note.
pub open spec fn map_decoded(audit: bool, packet: MapPacket) -> DecodedView {
    if audit && packet.unknown != 0 && packet.unknown != 1 {
        DecodedView::Audit(
            "Map: Unknown bool is not a bool (is "@ + decimal(packet.unknown as nat) + ")"@,
        )
    } else if audit && packet.matrix@ != unit_matrix() {
        DecodedView::Audit(
            "Map: Unit matrix is not a unit matrix (is "@ + bytes_debug(packet.matrix@) + ")"@,
        )
    } else {
        DecodedView::GameMap(packet)
    }
}

/// The payload that every packet of type 0x18 has held so far: ten floats
/// of zero, then three of minus one.
pub open spec fn still_camera() -> Seq<u8> {
    Seq::new(
        52,
        |i: int|
            if i >= 40 && i % 4 == 2 {
                128u8
            } else if i >= 40 && i % 4 == 3 {
                191u8
            } else {
                0u8
            },
    )
}

/// What a packet of an unknown kind says: its bytes. Under audit a packet of
/// type 0x18 with another payload than the usual one becomes a note.
pub open spec fn unknown_decoded(audit: bool, bytes: Seq<u8>, packet_type: u32) -> DecodedView {
    if packet_type == 0x18 && audit && bytes != still_camera() {
        DecodedView::Audit("Camera18 unexpected value!"@)
    } else {
        DecodedView::Unknown(bytes)
    }
}

/// What a payload says.
pub open spec fn payload_decoded(audit: bool, payload: PacketType, packet_type: u32) -> Result<
    DecodedView,
    DecodeError,
> {
    match payload {
        PacketType::EntityMethod(em) => entity_method_decoded(audit, em),
        PacketType::Camera(c) => Ok(DecodedView::Camera(c)),
        PacketType::CameraMode(code) => Ok(camera_mode_decoded(code)),
        PacketType::CameraFreeLook(code) => Ok(free_look_decoded(audit, code)),
        PacketType::CruiseState(cs) => Ok(cruise_state_decoded(cs)),
        PacketType::GameMap(m) => Ok(map_decoded(audit, m)),
        PacketType::EntityProperty(p) => Ok(DecodedView::EntityProperty(p)),
        PacketType::Position(p) => Ok(DecodedView::Position(p)),
        PacketType::PlayerOrientation(p) => Ok(DecodedView::PlayerOrientation(p)),
        PacketType::BasePlayerCreate(p) => Ok(DecodedView::BasePlayerCreate(p)),
        PacketType::CellPlayerCreate(p) => Ok(DecodedView::CellPlayerCreate(p)),
        PacketType::EntityEnter(p) => Ok(DecodedView::EntityEnter(p)),
        PacketType::EntityLeave(p) => Ok(DecodedView::EntityLeave(p)),
        PacketType::EntityCreate(p) => Ok(DecodedView::EntityCreate(p)),
        PacketType::PropertyUpdate(p) => Ok(DecodedView::PropertyUpdate(p)),
        PacketType::Version(v) => Ok(DecodedView::Version(v@)),
        PacketType::EntityInfo(info) => audited(audit, "EntityInfo"@, entity_info_decoded(info)),
        PacketType::Unknown(bytes) => Ok(unknown_decoded(audit, bytes@, packet_type)),
        PacketType::Invalid(p) => Ok(DecodedView::Invalid(p)),
    }
}

/// A code without a name is kept, never refused. Whatever the code of a
/// camera mode or of a control setting, and under audit as outside of it, the
/// packet decodes to the mode or setting of the code, which for a code without
/// a name is `Unknown` with the code in it. No code of the free look fails the
/// decoding either.
pub proof fn lemma_codes_never_fail(
    audit: bool,
    packet_type: u32,
    mode: u32,
    look: u8,
    setting: CruiseStatePacket,
)
    ensures
        payload_decoded(audit, PacketType::CameraMode(mode), packet_type) == Ok::<
            DecodedView,
            DecodeError,
        >(DecodedView::CameraMode(camera_mode_of(mode))),
        payload_decoded(audit, PacketType::CruiseState(setting), packet_type) == Ok::<
            DecodedView,
            DecodeError,
        >(DecodedView::CruiseState { state: cruise_state_of(setting.key), value: setting.value }),
        payload_decoded(audit, PacketType::CameraFreeLook(look), packet_type) is Ok,
        !(mode == 3 || mode == 5 || mode == 6 || mode == 8 || mode == 9 || mode == 11)
            ==> camera_mode_of(mode) == CameraMode::Unknown(mode),
        setting.key > 2 ==> cruise_state_of(setting.key) == CruiseState::Unknown(setting.key),
{
}

/// Under audit no packet fails the decoding: what cannot be decoded becomes
/// a note.
pub proof fn lemma_audit_never_fails(payload: PacketType, packet_type: u32)
    ensures
        payload_decoded(true, payload, packet_type) is Ok,
{
}

/// Applies the rule for a packet that cannot be decoded: under audit it
/// becomes a note, else the decoding fails.
fn settle<'a>(audit: bool, what: &str, r: Result<DecodedPacketPayload<'a>, DecodeError>) -> (out:
    Result<DecodedPacketPayload<'a>, DecodeError>)
    ensures
        outcome_view(out) == audited(audit, what@, outcome_view(r)),
{
    match r {
        Err(e) => {
            if audit {
                let mut note = String::from_str(what);
                push_text(&mut note, ": ");
                push_text(&mut note, e.describe());
                Ok(DecodedPacketPayload::Audit(note))
            } else {
                Err(e)
            }
        },
        Ok(d) => Ok(d),
    }
}

/// Whether the bytes are those of the unit matrix.
fn is_unit_matrix(bytes: &[u8]) -> (r: bool)
    ensures
        r == (bytes@ == unit_matrix()),
{
    if bytes.len() != 64 {
        return false;
    }
    let mut i: usize = 0;
    while i < 64
        invariant
            i <= 64,
            bytes@.len() == 64,
            forall|j: int| 0 <= j < i ==> bytes@[j] == unit_matrix()[j],
        decreases 64 - i,
    {
        let expected: u8 = if i % 20 == 2 {
            128
        } else if i % 20 == 3 {
            63
        } else {
            0
        };
        if bytes[i] != expected {
            return false;
        }
        i += 1;
    }
    assert(bytes@ =~= unit_matrix());
    true
}

/// Whether the bytes are the usual payload of a packet of type 0x18.
fn is_still_camera(bytes: &[u8]) -> (r: bool)
    ensures
        r == (bytes@ == still_camera()),
{
    if bytes.len() != 52 {
        return false;
    }
    let mut i: usize = 0;
    while i < 52
        invariant
            i <= 52,
            bytes@.len() == 52,
            forall|j: int| 0 <= j < i ==> bytes@[j] == still_camera()[j],
        decreases 52 - i,
    {
        let expected: u8 = if i >= 40 && i % 4 == 2 {
            128
        } else if i >= 40 && i % 4 == 3 {
            191
        } else {
            0
        };
        if bytes[i] != expected {
            return false;
        }
        i += 1;
    }
    assert(bytes@ =~= still_camera());
    true
}

/// The text that an entity holds under a number.
fn blob_text_of(data: &HashMap<u32, PropertyBlob>, number: u32) -> (r: Option<String>)
    ensures
        match r {
            Some(t) => blob_text(data@, number) == Some(t@),
            None => blob_text(data@, number) is None,
        },
{
    broadcast use vstd::std_specs::hash::group_hash_axioms;

    match data.get(&number) {
        Some(blob) => blob.as_string(),
        None => None,
    }
}

/// The number that an entity holds under a number.
fn blob_number_of(data: &HashMap<u32, PropertyBlob>, number: u32) -> (r: Option<i64>)
    ensures
        r == blob_number(data@, number),
{
    broadcast use vstd::std_specs::hash::group_hash_axioms;

    match data.get(&number) {
        Some(blob) => match blob.as_u32() {
            Some(n) => Some(n as i64),
            None => None,
        },
        None => None,
    }
}

/// The player that the properties of an entity describe.
fn entity_player(data: &HashMap<u32, PropertyBlob>) -> (r: Option<ReceivedPlayer>)
    ensures
        match r {
            Some(p) => entity_player_of(data@) == Some(p@),
            None => entity_player_of(data@) is None,
        },
{
    let username = blob_text_of(data, 27);
    let clan = blob_text_of(data, 6);
    let avatarid = blob_number_of(data, 2);
    let shipid = blob_number_of(data, 35);
    let playerid = blob_number_of(data, 12);
    let teamid = blob_number_of(data, 38);
    let health = blob_number_of(data, 26);
    match (username, clan, avatarid, shipid, playerid, teamid, health) {
        (
            Some(username),
            Some(clan),
            Some(avatarid),
            Some(shipid),
            Some(playerid),
            Some(teamid),
            Some(health),
        ) => {
            let p = ReceivedPlayer {
                username,
                clan,
                avatarid,
                shipid,
                playerid,
                teamid,
                health,
                raw: HashMap::new(),
            };
            assert(p@.raw =~= Map::empty());
            Some(p)
        },
        _ => None,
    }
}

/// Once the entities give no players, more of them give none either.
proof fn lemma_no_players_from(entities: Seq<EntityData>, n: nat, m: nat)
    requires
        n <= m <= entities.len(),
        entity_players_upto(entities, n) is None,
    ensures
        entity_players_upto(entities, m) is None,
    decreases m,
{
    if n < m {
        lemma_no_players_from(entities, n, (m - 1) as nat);
    }
}

impl<'a> DecodedPacketPayload<'a> {
    /// Reads the arguments of `onChatMessageRegular`.
    fn chat(packet: &'a EntityMethodPacket) -> (r: Result<DecodedPacketPayload<'a>, DecodeError>)
        ensures
            outcome_view(r) == chat_decoded(packet.entity_id, packet.args@),
    {
        if packet.args.len() < 3 {
            return Err(DecodeError::MissingArgument);
        }
        match (&packet.args[0], &packet.args[1], &packet.args[2]) {
            (ArgValue::Int32(sender_id), ArgValue::Str(audience), ArgValue::Str(message)) => {
                match (utf8_text(audience.as_slice()), utf8_text(message.as_slice())) {
                    (Some(audience), Some(message)) => Ok(
                        DecodedPacketPayload::Chat {
                            entity_id: packet.entity_id,
                            sender_id: *sender_id,
                            audience,
                            message,
                        },
                    ),
                    _ => Err(DecodeError::ArgumentText),
                }
            },
            _ => Err(DecodeError::ArgumentType),
        }
    }

    /// Reads the arguments of `onArenaStateReceived`.
    fn arena_state(packet: &'a EntityMethodPacket) -> (r: Result<
        DecodedPacketPayload<'a>,
        DecodeError,
    >)
        ensures
            outcome_view(r) == arena_state_decoded(packet.args@),
    {
        if packet.args.len() < 4 {
            return Err(DecodeError::MissingArgument);
        }
        match (&packet.args[0], &packet.args[1], &packet.args[2], &packet.args[3]) {
            (
                ArgValue::Int64(arg0),
                ArgValue::Int8(arg1),
                ArgValue::Blob(state),
                ArgValue::Blob(roster),
            ) => {
                match (
                    PickleValue::from_bytes(state.as_slice()),
                    PickleValue::from_bytes(roster.as_slice()),
                ) {
                    (Some(state), Some(roster)) => {
                        let roster = roster.into_text();
                        match (
                            arena_from_tree(&state),
                            ReceivedPlayer::all_from_tree(&roster),
                        ) {
                            (Some(arg2), Some(players)) => Ok(
                                DecodedPacketPayload::OnArenaStateReceived {
                                    arg0: *arg0,
                                    arg1: *arg1,
                                    arg2,
                                    players,
                                },
                            ),
                            _ => Err(DecodeError::TreeShape),
                        }
                    },
                    _ => Err(DecodeError::ValueTree),
                }
            },
            _ => Err(DecodeError::ArgumentType),
        }
    }

    /// What a method call says. `onChatMessageRegular` gives a chat message
    /// and `onArenaStateReceived` a roster; a call of any other method is
    /// handed on as it is. Where the arguments of one of the two are not what
    /// the method takes, the decoding fails, or under audit gives a note.
    pub fn from_entity_method(audit: bool, packet: &'a EntityMethodPacket) -> (r: Result<
        DecodedPacketPayload<'a>,
        DecodeError,
    >)
        ensures
            outcome_view(r) == entity_method_decoded(audit, *packet),
    {
        if same_text(packet.method.as_str(), "onChatMessageRegular") {
            settle(audit, packet.method.as_str(), DecodedPacketPayload::chat(packet))
        } else if same_text(packet.method.as_str(), "onArenaStateReceived") {
            settle(audit, packet.method.as_str(), DecodedPacketPayload::arena_state(packet))
        } else {
            Ok(DecodedPacketPayload::EntityMethod(packet))
        }
    }

    /// What a packet about the entities of the battle says: the players
    /// among them, bots left out. It fails where an entity that is no bot
    /// lacks a property of a player or holds it in another form.
    pub fn from_entity_info(packet: &EntityInfoPacket) -> (r: Result<
        DecodedPacketPayload<'a>,
        DecodeError,
    >)
        ensures
            outcome_view(r) == entity_info_decoded(*packet),
    {
        let mut players: Vec<ReceivedPlayer> = Vec::new();
        let mut i: usize = 0;
        while i < packet.entities.len()
            invariant
                i <= packet.entities.len(),
                entity_players_upto(packet.entities@, i as nat) == Some(player_views(players@)),
            decreases packet.entities.len() - i,
        {
            if !packet.entities[i].is_bot {
                match entity_player(&packet.entities[i].data) {
                    Some(p) => {
                        let ghost before = player_views(players@);
                        players.push(p);
                        assert(player_views(players@) =~= before.push(p@));
                    },
                    None => {
                        proof {
                            assert(entity_players_upto(packet.entities@, (i + 1) as nat) is None);
                            lemma_no_players_from(
                                packet.entities@,
                                (i + 1) as nat,
                                packet.entities@.len(),
                            );
                        }
                        return Err(DecodeError::Property);
                    },
                }
            }
            i += 1;
        }
        Ok(DecodedPacketPayload::EntityInfo { players })
    }

    /// What a payload says, by its kind.
    ///
    /// A code that has no name (of a camera mode, of a control setting) is
    /// kept as `Unknown`, never refused, whether under audit or not. Under
    /// audit what is coerced or out of the ordinary becomes a note: a free look
    /// that is neither off nor on, a map with an odd flag or matrix, an odd
    /// payload of type 0x18, and a packet that cannot be decoded.
    pub fn from(audit: bool, payload: &'a PacketType, packet_type: u32) -> (r: Result<
        DecodedPacketPayload<'a>,
        DecodeError,
    >)
        ensures
            outcome_view(r) == payload_decoded(audit, *payload, packet_type),
    {
        match payload {
            PacketType::EntityMethod(em) => DecodedPacketPayload::from_entity_method(audit, em),
            PacketType::Camera(camera) => Ok(DecodedPacketPayload::Camera(camera)),
            PacketType::CameraMode(code) => Ok(
                DecodedPacketPayload::CameraMode(CameraMode::from_code(*code)),
            ),
            PacketType::CameraFreeLook(code) => {
                if *code == 0 {
                    Ok(DecodedPacketPayload::CameraFreeLook(false))
                } else if *code == 1 || !audit {
                    Ok(DecodedPacketPayload::CameraFreeLook(true))
                } else {
                    let mut note = String::from_str("CameraFreeLook(");
                    push_decimal(&mut note, *code as u64);
                    push_text(&mut note, ")");
                    Ok(DecodedPacketPayload::Audit(note))
                }
            },
            PacketType::CruiseState(cs) => Ok(
                DecodedPacketPayload::CruiseState {
                    state: CruiseState::from_code(cs.key),
                    value: cs.value,
                },
            ),
            PacketType::GameMap(map) => {
                if audit && map.unknown != 0 && map.unknown != 1 {
                    let mut note = String::from_str("Map: Unknown bool is not a bool (is ");
                    push_decimal(&mut note, map.unknown as u64);
                    push_text(&mut note, ")");
                    Ok(DecodedPacketPayload::Audit(note))
                } else if audit && !is_unit_matrix(map.matrix.as_slice()) {
                    let mut note = String::from_str("Map: Unit matrix is not a unit matrix (is ");
                    push_bytes_debug(&mut note, map.matrix.as_slice());
                    push_text(&mut note, ")");
                    Ok(DecodedPacketPayload::Audit(note))
                } else {
                    Ok(DecodedPacketPayload::GameMap(map))
                }
            },
            PacketType::EntityProperty(p) => Ok(DecodedPacketPayload::EntityProperty(p)),
            PacketType::Position(p) => Ok(DecodedPacketPayload::Position(p)),
            PacketType::PlayerOrientation(p) => Ok(DecodedPacketPayload::PlayerOrientation(p)),
            PacketType::BasePlayerCreate(p) => Ok(DecodedPacketPayload::BasePlayerCreate(p)),
            PacketType::CellPlayerCreate(p) => Ok(DecodedPacketPayload::CellPlayerCreate(p)),
            PacketType::EntityEnter(p) => Ok(DecodedPacketPayload::EntityEnter(p)),
            PacketType::EntityLeave(p) => Ok(DecodedPacketPayload::EntityLeave(p)),
            PacketType::EntityCreate(p) => Ok(DecodedPacketPayload::EntityCreate(p)),
            PacketType::PropertyUpdate(p) => Ok(DecodedPacketPayload::PropertyUpdate(p)),
            PacketType::Version(version) => Ok(DecodedPacketPayload::Version(version.clone())),
            PacketType::EntityInfo(info) => settle(
                audit,
                "EntityInfo",
                DecodedPacketPayload::from_entity_info(info),
            ),
            PacketType::Unknown(bytes) => {
                if packet_type == 0x18 && audit && !is_still_camera(bytes.as_slice()) {
                    Ok(DecodedPacketPayload::Audit(String::from_str("Camera18 unexpected value!")))
                } else {
                    Ok(DecodedPacketPayload::Unknown(bytes))
                }
            },
            PacketType::Invalid(p) => Ok(DecodedPacketPayload::Invalid(p)),
        }
    }
}

/// A packet with what it says.
#[derive(Debug)]
pub struct DecodedPacket<'a> {
    pub packet_type: u32,
    /// Seconds since the start of the battle: a 32-bit float, by its bit
    /// pattern.
    pub clock: u32,
    pub payload: DecodedPacketPayload<'a>,
}

impl<'a> DecodedPacket<'a> {
    /// Decodes a packet of a replay of the given version: type and clock
    /// stay, the payload becomes what it says. No payload that this library
    /// reads is laid out differently from one version to another, so the
    /// result is the same for every version.
    pub fn from(version: &Version, audit: bool, packet: &'a Packet) -> (r: Result<
        DecodedPacket<'a>,
        DecodeError,
    >)
        ensures
            match r {
                Ok(d) => d.packet_type == packet.packet_type && d.clock == packet.clock
                    && payload_decoded(audit, packet.payload, packet.packet_type) == Ok::<
                    DecodedView,
                    DecodeError,
                >(d.payload@),
                Err(e) => payload_decoded(audit, packet.payload, packet.packet_type) == Err::<
                    DecodedView,
                    DecodeError,
                >(e),
            },
    {
        match DecodedPacketPayload::from(audit, &packet.payload, packet.packet_type) {
            Ok(payload) => Ok(
                DecodedPacket { packet_type: packet.packet_type, clock: packet.clock, payload },
            ),
            Err(e) => Err(e),
        }
    }
}

} // verus!
