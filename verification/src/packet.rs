//! Packets of a replay, with their payload in typed form.

use crate::text::{text_of, utf8_text};
use crate::wire::{le_u32_at, read_u32};
use std::collections::HashMap;
use vstd::prelude::*;
use vstd::string::*;
use vstd::utf8::valid_utf8;

verus! {

/// One argument of a remote method call.
#[derive(Debug)]
pub enum ArgValue {
    Uint8(u8),
    Uint16(u16),
    Uint32(u32),
    Uint64(u64),
    Int8(i8),
    Int16(i16),
    Int32(i32),
    Int64(i64),
    /// A 32-bit float, by its bit pattern.
    Float32(u32),
    /// A 64-bit float, by its bit pattern.
    Float64(u64),
    /// A string, by its bytes.
    Str(Vec<u8>),
    /// Bytes that the method's own code reads.
    Blob(Vec<u8>),
}

/// A payload that this library hands on as it came.
#[derive(Debug)]
pub struct RawPayload {
    pub bytes: Vec<u8>,
}

/// A call of a method of an entity.
#[derive(Debug)]
pub struct EntityMethodPacket {
    pub entity_id: u32,
    pub method: String,
    pub args: Vec<ArgValue>,
}

/// A change of one of the fixed control settings.
#[derive(Debug, Clone, Copy, PartialEq, Eq, Structural)]
pub struct CruiseStatePacket {
    pub key: u32,
    pub value: i32,
}

/// The map that the battle is fought on.
#[derive(Debug)]
pub struct MapPacket {
    pub name: String,
    /// A transformation matrix: sixteen 32-bit floats, by their bytes.
    pub matrix: Vec<u8>,
    /// A flag: 0 or 1 in every replay seen so far.
    pub unknown: u8,
}

/// One property of an entity, as the bytes that the replay holds for it.
#[derive(Debug)]
pub struct PropertyBlob {
    pub blob: Vec<u8>,
}

impl PropertyBlob {
    /// The property as text, where its bytes are well-formed UTF-8.
    pub fn as_string(&self) -> (r: Option<String>)
        ensures
            match r {
                Some(t) => valid_utf8(self.blob@) && t@ == text_of(self.blob@),
                None => !valid_utf8(self.blob@),
            },
    {
        match utf8_text(self.blob.as_slice()) {
            Some(t) => Some(String::from_str(t)),
            None => None,
        }
    }

    /// The property as a number, where it is four bytes: they spell the
    /// number, least significant byte first.
    pub fn as_u32(&self) -> (r: Option<u32>)
        ensures
            r == (if self.blob@.len() == 4 {
                Some(le_u32_at(self.blob@, 0))
            } else {
                None
            }),
    {
        if self.blob.len() == 4 {
            Some(read_u32(self.blob.as_slice(), 0))
        } else {
            None
        }
    }
}

/// What a replay tells of one entity of the battle.
#[derive(Debug)]
pub struct EntityData {
    pub is_bot: bool,
    /// The properties, each under its number.
    pub data: HashMap<u32, PropertyBlob>,
}

/// The entities of the battle.
#[derive(Debug)]
pub struct EntityInfoPacket {
    pub entities: Vec<EntityData>,
}

/// The payload of a packet, by its kind.
#[derive(Debug)]
pub enum PacketType {
    Position(RawPayload),
    BasePlayerCreate(RawPayload),
    CellPlayerCreate(RawPayload),
    EntityEnter(RawPayload),
    EntityLeave(RawPayload),
    EntityCreate(RawPayload),
    EntityProperty(RawPayload),
    EntityMethod(EntityMethodPacket),
    PropertyUpdate(RawPayload),
    PlayerOrientation(RawPayload),
    CruiseState(CruiseStatePacket),
    Version(String),
    Camera(RawPayload),
    CameraMode(u32),
    CameraFreeLook(u8),
    GameMap(MapPacket),
    EntityInfo(EntityInfoPacket),
    /// A packet of a kind that this library does not know.
    Unknown(Vec<u8>),
    /// A packet of a known kind whose payload could not be read.
    Invalid(RawPayload),
}

/// One packet of a replay.
#[derive(Debug)]
pub struct Packet {
    pub packet_type: u32,
    /// Seconds since the start of the battle: a 32-bit float, by its bit
    /// pattern.
    pub clock: u32,
    pub payload: PacketType,
}

} // verus!
