//! The byte-level description of the file format: every record's exact
//! little-endian encoding as a specification function over byte sequences,
//! together with the fixed magic tags and padding blocks the format carries.
//!
//! These functions are the single source of truth for the wire format: the
//! writer is proved to emit exactly these bytes and the parser is proved to
//! read them back.

use vstd::prelude::*;
use crate::data::LORoom;
use crate::data::LORoomInfo;
use crate::tiles::LOConnection;
use crate::tiles::LOStackTile;
use crate::views::ContentV;
use crate::views::LayerV;
use crate::views::StackElementV;
use crate::views::StemV;
use crate::views::TilePayloadV;
use crate::views::TileV;
use crate::views::WorldV;
use crate::views::ZoneV;

verus! {

/// Magic at the start of a document.
pub const WORLD_MAGIC: [u8; 4] = [0x53, 0x74, 0x46, 0x42];

/// Magic at the start of every stem record.
pub const STEM_MAGIC: [u8; 4] = [0x6D, 0x65, 0x74, 0x53];

/// Four-letter label inside the zone header.
pub const ZONE_LABEL: [u8; 4] = [0x7A, 0x6F, 0x6E, 0x65];

/// Four-letter label inside each room header entry.
pub const ROOM_LABEL: [u8; 4] = [0x72, 0x6F, 0x6F, 0x6D];

/// NUL-terminated name selecting the world-descriptor stem content.
pub const ZONE_MAP_MAGIC: [u8; 14] = [
    0x74, 0x69, 0x6C, 0x65, 0x5F, 0x7A, 0x6F, 0x6E, 0x65, 0x5F, 0x6D, 0x61, 0x70, 0x00,
];

/// NUL-terminated name selecting the room-data stem content.
pub const MAP_EDIT_MAGIC: [u8; 13] = [
    0x74, 0x69, 0x6C, 0x65, 0x6D, 0x61, 0x70, 0x5F, 0x65, 0x64, 0x69, 0x74, 0x00,
];

/// Five bytes preceding each layer's dimensions.
pub const LAYER_PREFIX: [u8; 5] = [0x00, 0x00, 0x00, 0x00, 0x00];

/// Six bytes between each layer's dimensions and its tile count.
pub const LAYER_INFIX: [u8; 6] = [0x01, 0x01, 0x00, 0x00, 0x80, 0x3F];

/// Fixed block of the world descriptor whose meaning is unexplained; a
/// format constant reverse-engineered from real files, asserted on read.
pub const TILE_ZONE_MAP_UNKNOWN2: [u8; 165] = [
    0x01, 0x00, 0x01, 0x09, 0x00, 0x00, 0x00, 0x06, 0x00, 0x00, 0x00, 0x22, 0x00, 0x00, 0x00, 0x00,
    0x00, 0x04, 0x00, 0x00, 0x00, 0x00, 0x00, 0x00, 0x00, 0x0C, 0x00, 0x00, 0x00, 0x23, 0x00, 0x00,
    0x01, 0x00, 0x00, 0x00, 0x01, 0x0C, 0x00, 0x00, 0x00, 0x24, 0x00, 0x00, 0x01, 0x00, 0x00, 0x00,
    0x00, 0x08, 0x00, 0x00, 0x00, 0x32, 0x00, 0x00, 0x00, 0x00, 0x00, 0x00, 0x00, 0x00, 0x00, 0x04,
    0x00, 0x00, 0x00, 0x00, 0x00, 0x00, 0x00, 0x08, 0x00, 0x00, 0x00, 0x33, 0x00, 0x00, 0x00, 0x00,
    0x00, 0x00, 0x00, 0x00, 0x00, 0x04, 0x00, 0x00, 0x00, 0x00, 0x00, 0x00, 0x00, 0x06, 0x00, 0x00,
    0x00, 0x34, 0x00, 0x00, 0x00, 0x00, 0x00, 0x04, 0x00, 0x00, 0x00, 0x00, 0x00, 0x00, 0x00, 0x06,
    0x00, 0x00, 0x00, 0x35, 0x00, 0x00, 0x00, 0x00, 0x00, 0x04, 0x00, 0x00, 0x00, 0x00, 0x00, 0x00,
    0x00, 0x06, 0x00, 0x00, 0x00, 0x36, 0x00, 0x00, 0x00, 0x00, 0x00, 0x04, 0x00, 0x00, 0x00, 0x00,
    0x00, 0x00, 0x00, 0x06, 0x00, 0x00, 0x00, 0x39, 0x00, 0x00, 0x00, 0x00, 0x00, 0x04, 0x00, 0x00,
    0x00, 0x00, 0x00, 0x00, 0x00,
];

/// Fixed block of each room record whose meaning is unexplained; a format
/// constant reverse-engineered from real files, asserted on read.
pub const TILE_MAP_EDIT_UNKNOWN3: [u8; 413] = [
    0x00, 0x00, 0x00, 0x00, 0x01, 0x00, 0x0A, 0x00, 0x00, 0x00, 0x1C, 0x00, 0x00, 0x00, 0x01, 0x00,
    0x00, 0x00, 0x05, 0x00, 0x00, 0x00, 0x20, 0x00, 0x02, 0x00, 0x00, 0x00, 0x08, 0x00, 0x00, 0x00,
    0x01, 0x00, 0x00, 0x00, 0x02, 0x00, 0x00, 0x00, 0x2D, 0x00, 0x00, 0x00, 0x01, 0x00, 0x00, 0x00,
    0x0F, 0x00, 0x00, 0x00, 0x30, 0x00, 0xFF, 0xFF, 0xFF, 0xFF, 0x01, 0x00, 0x00, 0x00, 0x06, 0x00,
    0x00, 0x00, 0x74, 0x6F, 0x67, 0x67, 0x6C, 0x65, 0x00, 0x00, 0x00, 0x00, 0x00, 0x04, 0x00, 0x00,
    0x00, 0x02, 0x00, 0x00, 0x00, 0x60, 0x00, 0x00, 0x00, 0x01, 0x00, 0x00, 0x00, 0x0F, 0x00, 0x00,
    0x00, 0x30, 0x00, 0xFF, 0xFF, 0xFF, 0xFF, 0x01, 0x00, 0x00, 0x00, 0x06, 0x00, 0x00, 0x00, 0x74,
    0x6F, 0x67, 0x67, 0x6C, 0x65, 0x00, 0x00, 0x00, 0x00, 0x00, 0x04, 0x00, 0x00, 0x00, 0x02, 0x00,
    0x00, 0x00, 0x37, 0x00, 0x00, 0x00, 0x01, 0x00, 0x00, 0x00, 0x0C, 0x00, 0x00, 0x00, 0x31, 0x00,
    0x00, 0x01, 0x00, 0x00, 0x00, 0x01, 0xFF, 0xFF, 0xFF, 0xFF, 0x02, 0x00, 0x00, 0x00, 0x05, 0x00,
    0x00, 0x00, 0x21, 0x00, 0x00, 0x00, 0x00, 0x00, 0x08, 0x00, 0x00, 0x00, 0x01, 0x00, 0x00, 0x00,
    0x03, 0x00, 0x00, 0x00, 0x06, 0x00, 0x00, 0x00, 0x35, 0x00, 0x00, 0x00, 0x00, 0x00, 0x04, 0x00,
    0x00, 0x00, 0x00, 0x00, 0x00, 0x00, 0x30, 0x00, 0x00, 0x00, 0x01, 0x00, 0x00, 0x00, 0x0F, 0x00,
    0x00, 0x00, 0x30, 0x00, 0xFF, 0xFF, 0xFF, 0xFF, 0x01, 0x00, 0x00, 0x00, 0x06, 0x00, 0x00, 0x00,
    0x74, 0x6F, 0x67, 0x67, 0x6C, 0x65, 0x00, 0x00, 0x00, 0x00, 0x00, 0x04, 0x00, 0x00, 0x00, 0x02,
    0x00, 0x00, 0x00, 0x2A, 0x00, 0x00, 0x00, 0x01, 0x00, 0x00, 0x00, 0x05, 0x00, 0x00, 0x00, 0x20,
    0x00, 0x02, 0x00, 0x00, 0x00, 0x08, 0x00, 0x00, 0x00, 0x01, 0x00, 0x00, 0x00, 0x02, 0x00, 0x00,
    0x00, 0x2B, 0x00, 0x00, 0x00, 0x01, 0x00, 0x00, 0x00, 0x05, 0x00, 0x00, 0x00, 0x20, 0x00, 0x02,
    0x00, 0x00, 0x00, 0x08, 0x00, 0x00, 0x00, 0x01, 0x00, 0x00, 0x00, 0x02, 0x00, 0x00, 0x00, 0x62,
    0x00, 0x00, 0x00, 0x02, 0x00, 0x00, 0x00, 0x0F, 0x00, 0x00, 0x00, 0x37, 0x00, 0xFF, 0xFF, 0xFF,
    0xFF, 0x01, 0x00, 0x00, 0x00, 0x06, 0x00, 0x00, 0x00, 0x74, 0x69, 0x6C, 0x65, 0x00, 0x00, 0x00,
    0x00, 0x00, 0x04, 0x00, 0x00, 0x00, 0x00, 0x00, 0x00, 0x00, 0x0F, 0x00, 0x00, 0x00, 0x30, 0x00,
    0xFF, 0xFF, 0xFF, 0xFF, 0x01, 0x00, 0x00, 0x00, 0x06, 0x00, 0x00, 0x00, 0x74, 0x6F, 0x67, 0x67,
    0x6C, 0x65, 0x00, 0x00, 0x00, 0x00, 0x00, 0x04, 0x00, 0x00, 0x00, 0x02, 0x00, 0x00, 0x00, 0x03,
    0x00, 0x00, 0x00, 0x01, 0x00, 0x00, 0x00, 0x05, 0x00, 0x00, 0x00, 0x20, 0x00, 0x02, 0x00, 0x00,
    0x00, 0x08, 0x00, 0x00, 0x00, 0x01, 0x00, 0x00, 0x00, 0x02, 0x00, 0x00, 0x00,
];

/// Little-endian bytes of a 16-bit value.
pub open spec fn spec_le16(v: u16) -> Seq<u8> {
    seq![(v & 0xff) as u8, ((v >> 8) & 0xff) as u8]
}

/// Little-endian bytes of a 32-bit value.
pub open spec fn spec_le32(v: u32) -> Seq<u8> {
    seq![
        (v & 0xff) as u8,
        ((v >> 8) & 0xff) as u8,
        ((v >> 16) & 0xff) as u8,
        ((v >> 24) & 0xff) as u8,
    ]
}

/// The 16-bit value two little-endian bytes stand for.
pub open spec fn spec_u16_of(b0: u8, b1: u8) -> u16 {
    (b0 as u16) | ((b1 as u16) << 8)
}

/// The 32-bit value four little-endian bytes stand for.
pub open spec fn spec_u32_of(b0: u8, b1: u8, b2: u8, b3: u8) -> u32 {
    (b0 as u32) | ((b1 as u32) << 8) | ((b2 as u32) << 16) | ((b3 as u32) << 24)
}

pub proof fn lemma_le16_round_trip(v: u16)
    ensures
        spec_u16_of(spec_le16(v)[0], spec_le16(v)[1]) == v,
{
    assert(((v & 0xff) as u8 as u16) | (((v >> 8) & 0xff) as u8 as u16) << 8 == v)
        by (bit_vector);
}

pub proof fn lemma_le32_round_trip(v: u32)
    ensures
        spec_u32_of(spec_le32(v)[0], spec_le32(v)[1], spec_le32(v)[2], spec_le32(v)[3]) == v,
{
    assert(((v & 0xff) as u8 as u32) | (((v >> 8) & 0xff) as u8 as u32) << 8
        | (((v >> 16) & 0xff) as u8 as u32) << 16 | (((v >> 24) & 0xff) as u8 as u32) << 24
        == v) by (bit_vector);
}

/// Concatenated encodings of a list's elements, in order.
pub open spec fn enc_list<T>(xs: Seq<T>, g: spec_fn(T) -> Seq<u8>) -> Seq<u8>
    decreases xs.len(),
{
    if xs.len() == 0 {
        Seq::empty()
    } else {
        g(xs[0]) + enc_list(xs.drop_first(), g)
    }
}

/// Appending one element appends its encoding.
pub proof fn lemma_enc_list_push<T>(xs: Seq<T>, g: spec_fn(T) -> Seq<u8>, x: T)
    ensures
        enc_list(xs.push(x), g) == enc_list(xs, g) + g(x),
    decreases xs.len(),
{
    if xs.len() == 0 {
        assert(xs.push(x)[0] == x);
        assert(xs.push(x).drop_first() =~= Seq::<T>::empty());
        assert(enc_list(Seq::<T>::empty(), g) == Seq::<u8>::empty());
        assert(enc_list(xs.push(x), g) == g(x) + Seq::<u8>::empty());
        assert(enc_list(xs.push(x), g) =~= enc_list(xs, g) + g(x));
    } else {
        assert(xs.push(x).drop_first() =~= xs.drop_first().push(x));
        lemma_enc_list_push(xs.drop_first(), g, x);
        assert(xs.push(x)[0] == xs[0]);
        assert(enc_list(xs.push(x), g) == g(xs[0]) + enc_list(xs.drop_first().push(x), g));
        assert(enc_list(xs.push(x), g) =~= enc_list(xs, g) + g(x));
    }
}

/// A NUL-terminated string: the bytes followed by the terminator.
pub open spec fn spec_enc_nullstr(s: Seq<u8>) -> Seq<u8> {
    s + seq![0u8]
}

/// A connection: two 16-bit coordinates.
pub open spec fn spec_enc_connection(c: LOConnection) -> Seq<u8> {
    spec_le16(c.x_position) + spec_le16(c.y_position)
}

pub open spec fn spec_enc_connections(cs: Seq<LOConnection>) -> Seq<u8> {
    enc_list(cs, |c: LOConnection| spec_enc_connection(c))
}

/// A stack sub-tile: its 16-bit tag, except the legacy prime key which is
/// written as its tag followed by four zero bytes.
pub open spec fn spec_enc_stack_tile(t: LOStackTile) -> Seq<u8> {
    if t is PrimeKey {
        seq![0x0Eu8, 0x00u8, 0x00u8, 0x00u8, 0x00u8, 0x00u8]
    } else {
        spec_le16(t.spec_tag())
    }
}

/// A stack element: sub-tile, facing, and (for a toggle switch only) a
/// counted connection list.
pub open spec fn spec_enc_stack_element(e: StackElementV) -> Seq<u8> {
    spec_enc_stack_tile(e.tile) + spec_le16(e.direction.spec_code()) + if e.tile
        is ToggleSwitch {
        spec_le32(e.connections.len() as u32) + spec_enc_connections(e.connections)
    } else {
        Seq::empty()
    }
}

pub open spec fn spec_enc_stack_elements(es: Seq<StackElementV>) -> Seq<u8> {
    enc_list(es, |e: StackElementV| spec_enc_stack_element(e))
}

/// The payload following a tile's tag; empty for most variants.
pub open spec fn spec_enc_tile_payload(p: TilePayloadV) -> Seq<u8> {
    match p {
        TilePayloadV::Plain => Seq::empty(),
        TilePayloadV::Conns(cs) => spec_le32(cs.len() as u32) + spec_enc_connections(cs),
        TilePayloadV::Dir(d) => spec_le32(d.spec_code()),
        TilePayloadV::Text(text) => spec_enc_nullstr(text),
        TilePayloadV::StackEls(es) => spec_le32(es.len() as u32) + spec_enc_stack_elements(es),
    }
}

/// A tile: its 32-bit tag followed by its payload.
pub open spec fn spec_enc_tile(t: TileV) -> Seq<u8> {
    spec_le32(t.tag) + spec_enc_tile_payload(t.payload)
}

pub open spec fn spec_enc_tiles(ts: Seq<TileV>) -> Seq<u8> {
    enc_list(ts, |t: TileV| spec_enc_tile(t))
}

/// A layer: fixed prefix, dimensions, fixed infix, the derived tile count,
/// then the tiles in row-major order.
pub open spec fn spec_enc_layer(l: LayerV) -> Seq<u8> {
    LAYER_PREFIX@ + spec_le16(l.width) + spec_le16(l.height) + LAYER_INFIX@ + spec_le32(
        (l.width * l.height) as u32,
    ) + spec_enc_tiles(l.tiles)
}

pub open spec fn spec_enc_layers(ls: Seq<LayerV>) -> Seq<u8> {
    enc_list(ls, |l: LayerV| spec_enc_layer(l))
}

/// A room-info entry of the descriptor, with its trailing zero field.
pub open spec fn spec_enc_roominfo(ri: LORoomInfo) -> Seq<u8> {
    spec_le32(ri.id) + spec_le16(ri.x_position as u16) + spec_le16(ri.y_position as u16)
        + spec_le16(ri.width) + spec_le16(ri.height) + spec_le16(ri.z_position as u16)
        + spec_le16(0)
}

pub open spec fn spec_enc_roominfos(ris: Seq<LORoomInfo>) -> Seq<u8> {
    enc_list(ris, |ri: LORoomInfo| spec_enc_roominfo(ri))
}

/// Stem content. The descriptor writes its fixed unexplained fields and its
/// padding block verbatim, and repeats the room count after the GUID
/// fields; the room record derives its tile count from its dimensions.
pub open spec fn spec_enc_content(c: ContentV) -> Seq<u8> {
    match c {
        ContentV::ZoneMapV {
            name,
            room_info,
            description,
            author,
            guid_world,
            guid_author1,
            guid_author2,
            world_revision,
            unknown4,
        } => ZONE_MAP_MAGIC@ + spec_le16(0) + spec_le32(1) + spec_enc_nullstr(name)
            + TILE_ZONE_MAP_UNKNOWN2@ + spec_le32(room_info.len() as u32)
            + spec_enc_roominfos(room_info) + spec_le32(1) + spec_enc_nullstr(description)
            + spec_enc_nullstr(author) + spec_le32(guid_world) + seq![0u8, 0u8, 0u8, 0u8]
            + spec_le32(guid_author1) + seq![0u8, 0u8, 0u8, 0u8] + spec_le32(guid_author2)
            + spec_le32(world_revision) + spec_le32(room_info.len() as u32) + spec_le32(
            unknown4,
        ),
        ContentV::MapEditV { id, name, width, height, layers, music, revision } =>
            MAP_EDIT_MAGIC@ + spec_le16(0) + spec_le32(id) + spec_enc_nullstr(name) + spec_le16(
            width,
        ) + spec_le16(height) + TILE_MAP_EDIT_UNKNOWN3@ + spec_le32(layers.len() as u32)
            + spec_enc_layers(layers) + spec_le32(music.spec_code() as u32) + spec_le32(
            revision,
        ),
    }
}

/// A stem: its magic followed by its content. The stem's own offset and
/// length occupy no bytes; encoding records the record boundaries in the
/// position log instead.
pub open spec fn spec_enc_stem(st: StemV) -> Seq<u8> {
    STEM_MAGIC@ + spec_enc_content(st.content)
}

pub open spec fn spec_enc_stems(sts: Seq<StemV>) -> Seq<u8> {
    enc_list(sts, |st: StemV| spec_enc_stem(st))
}

/// A room entry of the zone header: fixed leading value, the patched
/// offset and length of the room's stem, and the labelled four-byte name.
pub open spec fn spec_enc_room(r: LORoom) -> Seq<u8> {
    spec_le32(1002) + spec_le32(r.stem_offset) + spec_le32(r.stem_length) + seq![4u8]
        + ROOM_LABEL@
}

pub open spec fn spec_enc_rooms(rs: Seq<LORoom>) -> Seq<u8> {
    enc_list(rs, |r: LORoom| spec_enc_room(r))
}

/// The zone header: fixed leading value, the descriptor stem's patched
/// offset and length, the labelled name, then one entry per room.
pub open spec fn spec_enc_zone(z: ZoneV) -> Seq<u8> {
    spec_le32(1007) + spec_le32(z.stem_offset) + spec_le32(z.stem_length) + seq![4u8]
        + ZONE_LABEL@ + spec_enc_rooms(z.rooms)
}

/// The whole document. The room count is written as one more than its
/// logical value, a historical quirk of the format reproduced exactly.
pub open spec fn spec_enc_world(w: WorldV) -> Seq<u8> {
    WORLD_MAGIC@ + spec_le32(0) + spec_le32(w.zone_stem_offset) + spec_le32(
        (w.room_count + 1) as u32,
    ) + spec_enc_zone(w.zone) + spec_enc_stems(w.stems)
}

/// An encoded list splits at any index into the encodings of its two parts.
pub proof fn lemma_enc_list_split<T>(xs: Seq<T>, g: spec_fn(T) -> Seq<u8>, m: int)
    requires
        0 <= m <= xs.len(),
    ensures
        enc_list(xs, g) == enc_list(xs.take(m), g) + enc_list(xs.skip(m), g),
    decreases m,
{
    if m == 0 {
        assert(xs.take(0) =~= Seq::<T>::empty());
        assert(xs.skip(0) =~= xs);
        assert(enc_list(Seq::<T>::empty(), g) == Seq::<u8>::empty());
        assert(enc_list(xs, g) =~= enc_list(xs.take(0), g) + enc_list(xs.skip(0), g));
    } else {
        assert(xs.len() > 0);
        lemma_enc_list_split(xs.drop_first(), g, m - 1);
        assert(xs.take(m)[0] == xs[0]);
        assert(xs.take(m).drop_first() =~= xs.drop_first().take(m - 1));
        assert(xs.skip(m) =~= xs.drop_first().skip(m - 1));
        assert(enc_list(xs.take(m), g) == g(xs[0]) + enc_list(xs.drop_first().take(m - 1), g));
        assert(enc_list(xs, g) =~= enc_list(xs.take(m), g) + enc_list(xs.skip(m), g));
    }
}

/// One element's encoding extends the encoding of the list before it.
pub proof fn lemma_enc_list_take_step<T>(xs: Seq<T>, g: spec_fn(T) -> Seq<u8>, m: int)
    requires
        0 <= m < xs.len(),
    ensures
        enc_list(xs.take(m + 1), g) == enc_list(xs.take(m), g) + g(xs[m]),
{
    assert(xs.take(m).push(xs[m]) =~= xs.take(m + 1));
    lemma_enc_list_push(xs.take(m), g, xs[m]);
}

} // verus!
