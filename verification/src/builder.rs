//! The world and room builders: metadata, identity and a monotone room-id
//! counter around fresh tilemaps, and the fallible conversion of a built
//! world into the codec's document tree.

use vstd::prelude::*;
use vstd::utf8::encode_utf8;
use vstd::string::StringExecFns;
use vstd::string::StrSliceExecFns;
use crate::data::LOLayer;
use crate::data::LORoom;
use crate::data::LORoomInfo;
use crate::data::LOStem;
use crate::data::LOStemContent;
use crate::data::LOWorld;
use crate::data::LOZone;
use crate::guid::guid_segments;
use crate::guid::parse_guid;
use crate::guid::parse_single_guid;
use crate::guid::seg_values;
use crate::guid::spec_hex_value;
use crate::guid::Author;
use crate::tilemap::Tilemap;
use crate::tiles::LOMusic;
use crate::tiles::LOTile;
use crate::views::ContentV;
use crate::views::StemV;

verus! {

/// A room under construction: identity, metadata, placement and its five
/// layers.
#[derive(Debug)]
pub struct Room {
    pub id: u32,
    pub name: String,
    /// Tile-space position: x, y, z.
    pub position: (i16, i16, i16),
    pub width: u16,
    pub height: u16,
    pub music: LOMusic,
    pub revision: u32,
    pub tilemap: Tilemap,
}

impl Room {
    /// A fresh canonical-size room at the given position.
    pub fn new(position: (i16, i16, i16)) -> (r: Room)
        ensures
            r.id == 0,
            r.position == position,
            r.width == 24,
            r.height == 16,
            r.music == LOMusic::Silence,
            r.revision == 0,
            r.tilemap.wf(),
            r.tilemap.spec_width() == 24,
            r.tilemap.spec_height() == 16,
            r.name@ == "untitled"@,
    {
        Room::new_sized(position, 24, 16)
    }

    /// A fresh room of the given dimensions: no id yet, default name and
    /// music, a tilemap with a grass floor and empty upper layers.
    pub fn new_sized(position: (i16, i16, i16), width: u16, height: u16) -> (r: Room)
        ensures
            r.id == 0,
            r.position == position,
            r.width == width,
            r.height == height,
            r.music == LOMusic::Silence,
            r.revision == 0,
            r.tilemap.wf(),
            r.tilemap.spec_width() == width,
            r.tilemap.spec_height() == height,
            forall|px: int, py: int|
                0 <= px < width && 0 <= py < height ==> (#[trigger] r.tilemap.at(0, px, py))
                    == LOTile::Grass,
            forall|l: int, px: int, py: int|
                1 <= l < 5 && 0 <= px < width && 0 <= py < height ==> (#[trigger] r.tilemap.at(
                    l,
                    px,
                    py,
                )) is Empty,
            r.name@ == "untitled"@,
    {
        Room {
            position,
            id: 0,
            name: String::from_str("untitled"),
            width,
            height,
            music: LOMusic::Silence,
            revision: 0,
            tilemap: Tilemap::new(width, height),
        }
    }

    /// Renames the room and picks its music.
    pub fn with_metadata(self, name: &str, music: LOMusic) -> (r: Room)
        ensures
            r.name@ == name@,
            r.music == music,
            r.id == self.id,
            r.position == self.position,
            r.width == self.width,
            r.height == self.height,
            r.revision == self.revision,
            r.tilemap == self.tilemap,
    {
        Room { name: name.to_owned(), music, ..self }
    }
}

/// A world under construction: metadata, identity, its rooms, and the
/// default room size used to place rooms on the world grid.
#[derive(Debug)]
pub struct World {
    pub name: String,
    pub description: String,
    pub author: Author,
    pub guid: String,
    pub revision: u32,
    pub rooms: Vec<Room>,
    /// Default width for rooms; grid coordinates are scaled by it.
    pub room_width: u16,
    /// Default height for rooms; grid coordinates are scaled by it.
    pub room_height: u16,
    /// The last room id handed out; the next room gets one more.
    pub last_room_id: u32,
}

impl World {
    /// A fresh world with placeholder metadata and identity, no rooms,
    /// and the canonical default room size.
    pub fn new() -> (r: World)
        ensures
            r.rooms@.len() == 0,
            r.room_width == 24,
            r.room_height == 16,
            r.revision == 0,
            r.last_room_id == 0,
            r.name@ == "untitled"@,
            r.guid@ == "00000000"@,
    {
        World {
            name: String::from_str("untitled"),
            description: String::from_str("(no description provided)"),
            author: Author::new("Player", "00000000-00000000"),
            guid: String::from_str("00000000"),
            revision: 0,
            rooms: Vec::new(),
            room_width: 24,
            room_height: 16,
            last_room_id: 0,
        }
    }

    /// A fresh room at the given grid coordinate, placed at that
    /// coordinate times the default room size and given the next room id.
    /// The caller keeps the room and may push it onto `rooms`.
    pub fn new_room(&mut self, position: (i16, i16, i16)) -> (r: Room)
        requires
            old(self).room_width <= 32767,
            old(self).room_height <= 32767,
            i16::MIN <= position.0 * old(self).room_width <= i16::MAX,
            i16::MIN <= position.1 * old(self).room_height <= i16::MAX,
            old(self).last_room_id < u32::MAX,
        ensures
            final(self).last_room_id == old(self).last_room_id + 1,
            final(self).rooms == old(self).rooms,
            final(self).name == old(self).name,
            final(self).description == old(self).description,
            final(self).author == old(self).author,
            final(self).guid == old(self).guid,
            final(self).revision == old(self).revision,
            final(self).room_width == old(self).room_width,
            final(self).room_height == old(self).room_height,
            r.id == old(self).last_room_id + 1,
            r.position.0 == position.0 * old(self).room_width,
            r.position.1 == position.1 * old(self).room_height,
            r.position.2 == position.2,
            r.width == old(self).room_width,
            r.height == old(self).room_height,
            r.tilemap.wf(),
            r.tilemap.spec_width() == r.width,
            r.tilemap.spec_height() == r.height,
    {
        let scaled = (
            position.0 * (self.room_width as i16),
            position.1 * (self.room_height as i16),
            position.2,
        );
        let mut room = Room::new_sized(scaled, self.room_width, self.room_height);
        self.last_room_id = self.last_room_id + 1;
        room.id = self.last_room_id;
        room
    }

    /// Renames the world and sets its description.
    pub fn with_metadata(self, name: &str, description: &str) -> (r: World)
        ensures
            r.name@ == name@,
            r.description@ == description@,
            r.author == self.author,
            r.guid == self.guid,
            r.revision == self.revision,
            r.rooms == self.rooms,
            r.room_width == self.room_width,
            r.room_height == self.room_height,
            r.last_room_id == self.last_room_id,
    {
        World { name: name.to_owned(), description: description.to_owned(), ..self }
    }

    /// Sets the world's GUID and author.
    pub fn with_identity(self, guid: &str, author: Author) -> (r: World)
        ensures
            r.guid@ == guid@,
            r.author == author,
            r.name == self.name,
            r.description == self.description,
            r.revision == self.revision,
            r.rooms == self.rooms,
            r.room_width == self.room_width,
            r.room_height == self.room_height,
            r.last_room_id == self.last_room_id,
    {
        World { guid: guid.to_owned(), author, ..self }
    }
}

impl LOStemContent {
    /// The room-data record a finished room becomes: its metadata and its
    /// five layers in order.
    pub fn from(value: Room) -> (r: LOStemContent)
        ensures
            r@ matches ContentV::MapEditV { id, name, width, height, layers, music, revision }
                && id == value.id && name == encode_utf8(value.name@) && width == value.width
                && height == value.height && music == value.music && revision == value.revision
                && layers.len() == 5 && layers[0] == value.tilemap.l1@ && layers[1]
                == value.tilemap.l2@ && layers[2] == value.tilemap.l3@ && layers[3]
                == value.tilemap.l4@ && layers[4] == value.tilemap.l5@,
    {
        let name = value.name.as_str().as_bytes_vec();
        let r = LOStemContent::TileMapEdit {
            id: value.id,
            name,
            width: value.width,
            height: value.height,
            layers: value.tilemap.into_layers(),
            music: value.music,
            revision: value.revision,
        };
        proof {
            match r@ {
                ContentV::MapEditV { layers, .. } => {
                    assert(layers.len() == 5);
                },
                _ => {},
            }
        }
        r
    }
}

impl LOWorld {
    /// Converts a finished builder world into the codec's document tree:
    /// the world descriptor (with the GUID strings parsed into their
    /// 32-bit fields and one room-info entry per room) followed by one
    /// room record per room in order, and a zone with zeroed offsets for
    /// the encoder to patch. Fails exactly when the world GUID is not a
    /// 32-bit hexadecimal segment or the author GUID is not two such
    /// segments joined by a dash.
    pub fn try_from(value: World) -> (r: Result<LOWorld, String>)
        ensures
            r is Ok <==> spec_hex_value(encode_utf8(value.guid@)) is Some && seg_values(
                guid_segments(encode_utf8(value.author.guid@)),
            ) is Some && guid_segments(encode_utf8(value.author.guid@)).len() == 2,
            r is Ok ==> {
                let w = r->Ok_0;
                &&& w.zone_stem_offset == 0
                &&& w.room_count == value.rooms@.len() as u32
                &&& w.zone@.rooms.len() == value.rooms@.len()
                &&& forall|k: int|
                    0 <= k < w.zone@.rooms.len() ==> (#[trigger] w.zone@.rooms[k]) == (LORoom {
                        stem_offset: 0,
                        stem_length: 0,
                    })
                &&& w.stems.deep_view().len() == value.rooms@.len() + 1
                &&& w.stems.deep_view()[0].byte_offset == 0
                &&& w.stems.deep_view()[0].byte_length == 0
                &&& (w.stems.deep_view()[0].content matches ContentV::ZoneMapV {
                    name,
                    room_info,
                    description,
                    author,
                    guid_world,
                    guid_author1,
                    guid_author2,
                    world_revision,
                    unknown4,
                } && name == encode_utf8(value.name@) && description == encode_utf8(
                    value.description@,
                ) && author == encode_utf8(value.author.name@) && Some(guid_world)
                    == spec_hex_value(encode_utf8(value.guid@)) && Some(
                    seq![guid_author1, guid_author2],
                ) == seg_values(guid_segments(encode_utf8(value.author.guid@))) && world_revision
                    == value.revision && unknown4 == 0 && room_info.len() == value.rooms@.len()
                    && forall|k: int|
                    0 <= k < room_info.len() ==> (#[trigger] room_info[k]) == (LORoomInfo {
                        id: (k + 1) as u32,
                        x_position: value.rooms@[k].position.0,
                        y_position: value.rooms@[k].position.1,
                        width: value.rooms@[k].width,
                        height: value.rooms@[k].height,
                        z_position: value.rooms@[k].position.2,
                    }))
                &&& forall|k: int|
                    0 <= k < value.rooms@.len() ==> ((#[trigger] w.stems.deep_view()[k
                        + 1]).byte_offset == 0 && w.stems.deep_view()[k + 1].byte_length == 0
                        && (w.stems.deep_view()[k + 1].content matches ContentV::MapEditV {
                        id,
                        name,
                        width,
                        height,
                        layers,
                        music,
                        revision,
                    } && id == value.rooms@[k].id && name == encode_utf8(value.rooms@[k].name@)
                        && width == value.rooms@[k].width && height == value.rooms@[k].height
                        && music == value.rooms@[k].music && revision == value.rooms@[k].revision
                        && layers.len() == 5 && layers[0] == value.rooms@[k].tilemap.l1@
                        && layers[1] == value.rooms@[k].tilemap.l2@ && layers[2]
                        == value.rooms@[k].tilemap.l3@ && layers[3] == value.rooms@[k].tilemap.l4@
                        && layers[4] == value.rooms@[k].tilemap.l5@))
            },
    {
        let author_guids = parse_guid(value.author.guid.as_str())?;
        proof {
            crate::guid::lemma_seg_values_len(
                guid_segments(encode_utf8(value.author.guid@)),
            );
        }
        if author_guids.len() != 2 {
            return Err(String::from_str("author GUID must have exactly two segments"));
        }
        let guid_world = parse_single_guid(value.guid.as_str())?;
        let room_count = value.rooms.len();

        let mut room_info: Vec<LORoomInfo> = Vec::new();
        let mut i: usize = 0;
        while i < value.rooms.len()
            invariant
                i <= value.rooms@.len(),
                room_info@.len() == i,
                forall|k: int|
                    0 <= k < i ==> (#[trigger] room_info@[k]) == (LORoomInfo {
                        id: (k + 1) as u32,
                        x_position: value.rooms@[k].position.0,
                        y_position: value.rooms@[k].position.1,
                        width: value.rooms@[k].width,
                        height: value.rooms@[k].height,
                        z_position: value.rooms@[k].position.2,
                    }),
            decreases value.rooms@.len() - i,
        {
            let room = &value.rooms[i];
            room_info.push(
                LORoomInfo {
                    id: (i + 1) as u32,
                    x_position: room.position.0,
                    y_position: room.position.1,
                    width: room.width,
                    height: room.height,
                    z_position: room.position.2,
                },
            );
            i = i + 1;
        }

        let descriptor = LOStem::from_content(
            LOStemContent::TileZoneMap {
                name: value.name.as_str().as_bytes_vec(),
                room_info,
                description: value.description.as_str().as_bytes_vec(),
                author: value.author.name.as_str().as_bytes_vec(),
                guid_world,
                guid_author1: author_guids[0],
                guid_author2: author_guids[1],
                world_revision: value.revision,
                unknown4: 0,
            },
        );
        proof {
            assert(seq![author_guids@[0], author_guids@[1]] =~= author_guids@);
        }

        let mut stems: Vec<LOStem> = Vec::new();
        let mut rooms_hdr: Vec<LORoom> = Vec::new();
        stems.push(descriptor);
        let mut j: usize = 0;
        let mut rest = value.rooms;
        let ghost rooms0 = rest@;
        let n0 = rest.len();
        while rest.len() > 0
            invariant
                rooms0.len() <= usize::MAX,
                j + rest@.len() == rooms0.len(),
                rest@ == rooms0.skip(j as int),
                stems.deep_view().len() == j + 1,
                stems.deep_view()[0] == descriptor@,
                rooms_hdr@.len() == j,
                forall|k: int|
                    0 <= k < j ==> (#[trigger] rooms_hdr@[k]) == (LORoom {
                        stem_offset: 0,
                        stem_length: 0,
                    }),
                forall|k: int|
                    0 <= k < j ==> ((#[trigger] stems.deep_view()[k + 1]).byte_offset == 0
                        && stems.deep_view()[k + 1].byte_length == 0 && (stems.deep_view()[k
                        + 1].content matches ContentV::MapEditV {
                        id,
                        name,
                        width,
                        height,
                        layers,
                        music,
                        revision,
                    } && id == rooms0[k].id && name == encode_utf8(rooms0[k].name@) && width
                        == rooms0[k].width && height == rooms0[k].height && music
                        == rooms0[k].music && revision == rooms0[k].revision && layers.len() == 5
                        && layers[0] == rooms0[k].tilemap.l1@ && layers[1]
                        == rooms0[k].tilemap.l2@ && layers[2] == rooms0[k].tilemap.l3@
                        && layers[3] == rooms0[k].tilemap.l4@ && layers[4]
                        == rooms0[k].tilemap.l5@)),
            decreases rest@.len(),
        {
            let room = rest.remove(0);
            proof {
                assert(room == rooms0[j as int]);
                assert(rest@ =~= rooms0.skip(j as int + 1));
            }
            let content = LOStemContent::from(room);
            let ghost dv0 = stems.deep_view();
            stems.push(LOStem::from_content(content));
            rooms_hdr.push(LORoom { stem_offset: 0, stem_length: 0 });
            proof {
                assert(stems.deep_view() =~= dv0.push(
                    StemV { byte_offset: 0, byte_length: 0, content: content@ },
                ));
            }
            j = j + 1;
        }

        Ok(LOWorld::new(LOZone { stem_offset: 0, stem_length: 0, rooms: rooms_hdr }, stems))
    }
}

} // verus!
