//! The document tree of a world file: the zone header with its per-room
//! offset table, and the ordered stems (one world descriptor, then one
//! record per room), each stem holding five tile layers when it describes
//! a room.
//!
//! Offset and length fields are derived during encoding and informational
//! when read back; nothing reconstructs the tree from them.

use vstd::prelude::*;
use crate::tiles::LOMusic;
use crate::tiles::LOTile;

verus! {

/// The whole document: zone header plus ordered stems. `stems[0]` is the
/// world descriptor; `stems[1..]` are room records in the same order as
/// `zone.rooms`.
#[derive(Clone, Debug, PartialEq, Eq)]
pub struct LOWorld {
    /// Byte offset of the descriptor stem, patched during encoding.
    pub zone_stem_offset: u32,
    /// Number of rooms; written to the wire as this value plus one.
    pub room_count: u32,
    pub zone: LOZone,
    pub stems: Vec<LOStem>,
}

/// The header section: its own descriptor-stem location plus one entry per
/// room pointing at that room's stem.
#[derive(Clone, Debug, PartialEq, Eq)]
pub struct LOZone {
    /// Byte offset of the descriptor stem, patched during encoding.
    pub stem_offset: u32,
    /// Byte length of the descriptor stem, patched during encoding.
    pub stem_length: u32,
    pub rooms: Vec<LORoom>,
}

/// One room entry of the zone header.
#[derive(Clone, Copy, Debug, PartialEq, Eq, Structural)]
pub struct LORoom {
    /// Byte offset of this room's stem, patched during encoding.
    pub stem_offset: u32,
    /// Byte length of this room's stem, patched during encoding.
    pub stem_length: u32,
}

/// A self-delimited payload record. Its own offset and length occupy no
/// wire bytes: during encoding the positions of the record's boundaries
/// are appended to the position log instead, and the zone header is
/// patched from that log.
#[derive(Clone, Debug, PartialEq, Eq)]
pub struct LOStem {
    /// Vestigial; stays zero. The patched locations live in the zone header.
    pub byte_offset: u32,
    /// Vestigial; stays zero. The patched locations live in the zone header.
    pub byte_length: u32,
    pub content: LOStemContent,
}

impl LOStem {
    pub fn from_content(content: LOStemContent) -> (r: LOStem)
        ensures
            r == (LOStem { byte_offset: 0, byte_length: 0, content }),
    {
        LOStem { byte_offset: 0, byte_length: 0, content }
    }
}

/// Payload of a stem: either the world descriptor or one room's tile data.
/// Strings are raw wire bytes without the terminating NUL.
#[derive(Clone, Debug, PartialEq, Eq)]
pub enum LOStemContent {
    TileZoneMap {
        /// Name of the world.
        name: Vec<u8>,
        room_info: Vec<LORoomInfo>,
        description: Vec<u8>,
        author: Vec<u8>,
        guid_world: u32,
        guid_author1: u32,
        guid_author2: u32,
        world_revision: u32,
        /// Meaning unknown; round-tripped as an opaque integer.
        unknown4: u32,
    },
    TileMapEdit {
        id: u32,
        /// Name of the room.
        name: Vec<u8>,
        /// Canonically 24.
        width: u16,
        /// Canonically 16.
        height: u16,
        /// The five layer grids, in layer order.
        layers: Vec<LOLayer>,
        music: LOMusic,
        /// Room revision number.
        revision: u32,
    },
}

/// One layer grid: a row-major tile list whose length must equal
/// `width * height`.
#[derive(Clone, Debug, PartialEq, Eq)]
pub struct LOLayer {
    pub width: u16,
    pub height: u16,
    pub tiles: Vec<LOTile>,
}

/// One entry of the descriptor's room list: id, tile-space position and
/// grid size of a room.
#[derive(Clone, Copy, Debug, PartialEq, Eq, Structural)]
pub struct LORoomInfo {
    pub id: u32,
    /// In tiles; a multiple of the default room width for grid-aligned rooms.
    pub x_position: i16,
    /// In tiles; a multiple of the default room height for grid-aligned rooms.
    pub y_position: i16,
    pub width: u16,
    pub height: u16,
    pub z_position: i16,
}

impl LOWorld {
    /// Assembles a document; the room count is taken from the zone's room
    /// list (truncated to 32 bits) and the descriptor offset starts at zero
    /// until encoding patches it.
    pub fn new(zone: LOZone, stems: Vec<LOStem>) -> (r: LOWorld)
        ensures
            r.zone_stem_offset == 0,
            r.room_count == zone.rooms.len() as u32,
            r.zone == zone,
            r.stems == stems,
    {
        let room_count = zone.rooms.len() as u32;
        LOWorld { zone_stem_offset: 0, room_count, zone, stems }
    }
}

} // verus!
