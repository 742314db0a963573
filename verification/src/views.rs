//! Mathematical views of the document tree: each heap-carrying type is
//! mirrored by a specification-level value whose lists are sequences. The
//! wire-format specification, the parser specification and every codec
//! contract speak of these views.

use vstd::prelude::*;
use crate::data::LOLayer;
use crate::data::LORoom;
use crate::data::LORoomInfo;
use crate::data::LOStem;
use crate::data::LOStemContent;
use crate::data::LOWorld;
use crate::data::LOZone;
use crate::tags::spec_stack_tile_from_tag;
use crate::tiles::LOConnection;
use crate::tiles::LODirection;
use crate::tiles::LOMusic;
use crate::tiles::LOStackDirection;
use crate::tiles::LOStackElement;
use crate::tiles::LOStackTile;
use crate::tiles::LOTile;

verus! {

/// Payload of a tile, by kind: nothing, a connection list, a facing, sign
/// text, or a stack of sub-elements.
#[verifier::ext_equal]
pub enum TilePayloadV {
    Plain,
    Conns(Seq<LOConnection>),
    Dir(LODirection),
    Text(Seq<u8>),
    StackEls(Seq<StackElementV>),
}

/// A tile as the wire sees it: its tag and its payload. The view is
/// injective on tiles, since the tag names the variant.
#[verifier::ext_equal]
pub struct TileV {
    pub tag: u32,
    pub payload: TilePayloadV,
}

/// One stack element: sub-tile, facing, connection list.
#[verifier::ext_equal]
pub struct StackElementV {
    pub tile: LOStackTile,
    pub direction: LOStackDirection,
    pub connections: Seq<LOConnection>,
}

#[verifier::ext_equal]
pub struct LayerV {
    pub width: u16,
    pub height: u16,
    pub tiles: Seq<TileV>,
}

#[verifier::ext_equal]
pub enum ContentV {
    ZoneMapV {
        name: Seq<u8>,
        room_info: Seq<LORoomInfo>,
        description: Seq<u8>,
        author: Seq<u8>,
        guid_world: u32,
        guid_author1: u32,
        guid_author2: u32,
        world_revision: u32,
        unknown4: u32,
    },
    MapEditV {
        id: u32,
        name: Seq<u8>,
        width: u16,
        height: u16,
        layers: Seq<LayerV>,
        music: LOMusic,
        revision: u32,
    },
}

#[verifier::ext_equal]
pub struct StemV {
    pub byte_offset: u32,
    pub byte_length: u32,
    pub content: ContentV,
}

#[verifier::ext_equal]
pub struct ZoneV {
    pub stem_offset: u32,
    pub stem_length: u32,
    pub rooms: Seq<LORoom>,
}

#[verifier::ext_equal]
pub struct WorldV {
    pub zone_stem_offset: u32,
    pub room_count: u32,
    pub zone: ZoneV,
    pub stems: Seq<StemV>,
}

impl View for LOStackElement {
    type V = StackElementV;

    open spec fn view(&self) -> StackElementV {
        StackElementV {
            tile: self.tile,
            direction: self.direction,
            connections: self.connections@,
        }
    }
}

impl View for LOTile {
    type V = TileV;

    open spec fn view(&self) -> TileV {
        TileV {
            tag: self.spec_tag(),
            payload: match self {
                LOTile::PressurePlate { connections } => TilePayloadV::Conns(connections@),
                LOTile::SacrificeAltar { connections } => TilePayloadV::Conns(connections@),
                LOTile::ToggleSwitch { connections } => TilePayloadV::Conns(connections@),
                LOTile::StartPoint { direction } => TilePayloadV::Dir(*direction),
                LOTile::BombBug { direction } => TilePayloadV::Dir(*direction),
                LOTile::Slug { direction } => TilePayloadV::Dir(*direction),
                LOTile::FlyingSnake { direction } => TilePayloadV::Dir(*direction),
                LOTile::Sign { text } => TilePayloadV::Text(text@),
                LOTile::Stack { tiles } => TilePayloadV::StackEls(tiles.deep_view()),
                _ => TilePayloadV::Plain,
            },
        }
    }
}

impl View for LOLayer {
    type V = LayerV;

    open spec fn view(&self) -> LayerV {
        LayerV { width: self.width, height: self.height, tiles: self.tiles.deep_view() }
    }
}

impl View for LOStemContent {
    type V = ContentV;

    open spec fn view(&self) -> ContentV {
        match self {
            LOStemContent::TileZoneMap {
                name,
                room_info,
                description,
                author,
                guid_world,
                guid_author1,
                guid_author2,
                world_revision,
                unknown4,
            } => ContentV::ZoneMapV {
                name: name@,
                room_info: room_info@,
                description: description@,
                author: author@,
                guid_world: *guid_world,
                guid_author1: *guid_author1,
                guid_author2: *guid_author2,
                world_revision: *world_revision,
                unknown4: *unknown4,
            },
            LOStemContent::TileMapEdit { id, name, width, height, layers, music, revision } =>
                ContentV::MapEditV {
                id: *id,
                name: name@,
                width: *width,
                height: *height,
                layers: layers.deep_view(),
                music: *music,
                revision: *revision,
            },
        }
    }
}

impl View for LOStem {
    type V = StemV;

    open spec fn view(&self) -> StemV {
        StemV {
            byte_offset: self.byte_offset,
            byte_length: self.byte_length,
            content: self.content@,
        }
    }
}

impl View for LOZone {
    type V = ZoneV;

    open spec fn view(&self) -> ZoneV {
        ZoneV { stem_offset: self.stem_offset, stem_length: self.stem_length, rooms: self.rooms@ }
    }
}

impl View for LOWorld {
    type V = WorldV;

    open spec fn view(&self) -> WorldV {
        WorldV {
            zone_stem_offset: self.zone_stem_offset,
            room_count: self.room_count,
            zone: self.zone@,
            stems: self.stems.deep_view(),
        }
    }
}

impl DeepView for LOTile {
    type V = TileV;

    open spec fn deep_view(&self) -> TileV {
        self.view()
    }
}

impl DeepView for LOStackElement {
    type V = StackElementV;

    open spec fn deep_view(&self) -> StackElementV {
        self.view()
    }
}

impl DeepView for LOLayer {
    type V = LayerV;

    open spec fn deep_view(&self) -> LayerV {
        self.view()
    }
}

impl DeepView for LOStem {
    type V = StemV;

    open spec fn deep_view(&self) -> StemV {
        self.view()
    }
}

/// The tag of every tile variant that carries a connection-list payload.
pub open spec fn is_conns_tag(tag: u32) -> bool {
    tag == 0x2D || tag == 0x60 || tag == 0x30
}

/// The tag of every tile variant that carries a facing payload.
pub open spec fn is_dir_tag(tag: u32) -> bool {
    tag == 0x03 || tag == 0x1C || tag == 0x2B || tag == 0x2A
}

/// A stack element the codec round-trips exactly: only a toggle switch
/// carries connections, and a custom tag is none the taxonomy knows (the
/// legacy prime-key tag included).
pub open spec fn wf_stack_element_v(e: StackElementV) -> bool {
    &&& e.tile is ToggleSwitch ==> e.connections.len() <= u32::MAX
    &&& !(e.tile is ToggleSwitch) ==> e.connections.len() == 0
    &&& match e.tile {
        LOStackTile::Custom { id } => spec_stack_tile_from_tag(id) is None && id != 0x0E,
        _ => true,
    }
}

/// A tile view as genuine tiles produce it: the payload kind matches the
/// tag, counted lists fit their 32-bit count fields, and text is NUL-free.
pub open spec fn wf_tile_v(t: TileV) -> bool {
    &&& if is_conns_tag(t.tag) {
        t.payload is Conns && t.payload->Conns_0.len() <= u32::MAX
    } else if is_dir_tag(t.tag) {
        t.payload is Dir
    } else if t.tag == 0x37 {
        t.payload is Text && spec_text_wf(t.payload->Text_0)
    } else if t.tag == 0x62 {
        &&& t.payload is StackEls
        &&& t.payload->StackEls_0.len() <= u32::MAX
        &&& forall|k: int| 0 <= k < t.payload->StackEls_0.len()
            ==> wf_stack_element_v(#[trigger] t.payload->StackEls_0[k])
    } else {
        &&& t.payload is Plain
        &&& crate::tags::spec_plain_tile_from_tag(t.tag) is Some
    }
}

/// A NUL-free byte string, as the wire's NUL-terminated strings require.
pub open spec fn spec_text_wf(s: Seq<u8>) -> bool {
    forall|k: int| 0 <= k < s.len() ==> s[k] != 0
}

/// A layer whose tile list matches its declared dimensions, every tile
/// well-formed.
pub open spec fn wf_layer_v(l: LayerV) -> bool {
    &&& l.tiles.len() == l.width * l.height
    &&& forall|k: int| 0 <= k < l.tiles.len() ==> wf_tile_v(#[trigger] l.tiles[k])
}

/// Stem content the codec round-trips exactly.
pub open spec fn wf_content_v(c: ContentV) -> bool {
    match c {
        ContentV::ZoneMapV { name, room_info, description, author, .. } => {
            &&& spec_text_wf(name)
            &&& spec_text_wf(description)
            &&& spec_text_wf(author)
            &&& room_info.len() <= u32::MAX
        },
        ContentV::MapEditV { name, layers, .. } => {
            &&& spec_text_wf(name)
            &&& layers.len() <= u32::MAX
            &&& forall|k: int| 0 <= k < layers.len() ==> wf_layer_v(#[trigger] layers[k])
        },
    }
}

/// A stem as construction produces it: zeroed vestigial fields and
/// well-formed content.
pub open spec fn wf_stem_v(st: StemV) -> bool {
    &&& st.byte_offset == 0
    &&& st.byte_length == 0
    &&& wf_content_v(st.content)
}

/// A document the codec round-trips exactly: consistent room count, one
/// stem per zone room behind the descriptor stem, every stem well-formed.
/// Every document the builder assembles satisfies this.
pub open spec fn wf_world_v(w: WorldV) -> bool {
    &&& w.room_count == w.zone.rooms.len()
    &&& w.room_count < u32::MAX
    &&& w.stems.len() == w.zone.rooms.len() + 1
    &&& forall|k: int| 0 <= k < w.stems.len() ==> wf_stem_v(#[trigger] w.stems[k])
}

/// A tile the encoder accepts: every list it counts on the wire fits the
/// 32-bit count field.
pub open spec fn tile_encodable_v(t: TileV) -> bool {
    match t.payload {
        TilePayloadV::Conns(cs) => cs.len() <= u32::MAX,
        TilePayloadV::StackEls(es) => es.len() <= u32::MAX && forall|k: int|
            0 <= k < es.len() ==> (#[trigger] es[k]).tile is ToggleSwitch
                ==> es[k].connections.len() <= u32::MAX,
        _ => true,
    }
}

/// A layer the encoder accepts: the tile list matches the declared
/// dimensions (the structural invariant the writer enforces) and every
/// tile is encodable.
pub open spec fn layer_encodable_v(l: LayerV) -> bool {
    &&& l.tiles.len() == l.width * l.height
    &&& forall|k: int| 0 <= k < l.tiles.len() ==> tile_encodable_v(#[trigger] l.tiles[k])
}

/// Stem content the encoder accepts.
pub open spec fn content_encodable_v(c: ContentV) -> bool {
    match c {
        ContentV::ZoneMapV { room_info, .. } => room_info.len() <= u32::MAX,
        ContentV::MapEditV { layers, .. } => {
            &&& layers.len() <= u32::MAX
            &&& forall|k: int| 0 <= k < layers.len() ==> layer_encodable_v(#[trigger] layers[k])
        },
    }
}

/// A document the encoder accepts: the wire room count fits after the
/// format's plus-one quirk, there is exactly one stem per zone room behind
/// the descriptor stem (so the position log is drained exactly), and each
/// stem's content is encodable.
pub open spec fn world_encodable_v(w: WorldV) -> bool {
    &&& w.room_count < u32::MAX
    &&& w.stems.len() == w.zone.rooms.len() + 1
    &&& forall|k: int| 0 <= k < w.stems.len()
        ==> content_encodable_v((#[trigger] w.stems[k]).content)
}

/// Every document the codec round-trips is one the encoder accepts.
pub proof fn lemma_wf_implies_encodable(w: WorldV)
    requires
        wf_world_v(w),
    ensures
        world_encodable_v(w),
{
    assert forall|k: int| 0 <= k < w.stems.len() implies content_encodable_v(
        (#[trigger] w.stems[k]).content,
    ) by {
        assert(wf_stem_v(w.stems[k]));
        match w.stems[k].content {
            ContentV::ZoneMapV { .. } => {},
            ContentV::MapEditV { layers, .. } => {
                assert forall|m: int| 0 <= m < layers.len() implies layer_encodable_v(
                    #[trigger] layers[m],
                ) by {
                    assert(wf_layer_v(layers[m]));
                    assert forall|t: int| 0 <= t < layers[m].tiles.len() implies
                        tile_encodable_v(#[trigger] layers[m].tiles[t]) by {
                        assert(wf_tile_v(layers[m].tiles[t]));
                    }
                }
            },
        }
    }
}

} // verus!
