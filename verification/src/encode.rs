//! The executable writer: the two-pass back-patching encode of a document.
//!
//! Header records must embed the offset and length of payload records that
//! appear later in the stream, so the document is first serialized into a
//! counting sink, with every stem boundary appended to a position log;
//! the derived pairs are patched into the zone header, and the identical
//! serializer then runs against the real destination.

use vstd::prelude::*;
use crate::data::LOLayer;
use crate::data::LORoom;
use crate::data::LORoomInfo;
use crate::data::LOStem;
use crate::data::LOStemContent;
use crate::data::LOWorld;
use crate::data::LOZone;
use crate::sink::ByteSink;
use crate::sink::LOEncodeError;
use crate::sink::NullSink;
use crate::sink::PositionLog;
use crate::sink::VecSink;
use crate::tiles::LOConnection;
use crate::tiles::LOStackElement;
use crate::tiles::LOStackTile;
use crate::tiles::LOTile;
use crate::views::content_encodable_v;
use crate::views::layer_encodable_v;
use crate::views::tile_encodable_v;
use crate::views::world_encodable_v;
use crate::views::StemV;
use crate::views::WorldV;
use crate::views::ZoneV;
use crate::wire::enc_list;
use crate::wire::lemma_enc_list_split;
use crate::wire::lemma_enc_list_take_step;
use crate::wire::spec_enc_connection;
use crate::wire::spec_enc_connections;
use crate::wire::spec_enc_content;
use crate::wire::spec_enc_layer;
use crate::wire::spec_enc_layers;
use crate::wire::spec_enc_nullstr;
use crate::wire::spec_enc_room;
use crate::wire::spec_enc_roominfo;
use crate::wire::spec_enc_roominfos;
use crate::wire::spec_enc_rooms;
use crate::wire::spec_enc_stack_element;
use crate::wire::spec_enc_stack_elements;
use crate::wire::spec_enc_stack_tile;
use crate::wire::spec_enc_stem;
use crate::wire::spec_enc_stems;
use crate::wire::spec_enc_tile;
use crate::wire::spec_enc_tile_payload;
use crate::wire::spec_enc_tiles;
use crate::wire::spec_enc_world;
use crate::wire::spec_enc_zone;
use crate::wire::spec_le16;
use crate::wire::spec_le32;
use crate::wire::LAYER_INFIX;
use crate::wire::LAYER_PREFIX;
use crate::wire::MAP_EDIT_MAGIC;
use crate::wire::ROOM_LABEL;
use crate::wire::STEM_MAGIC;
use crate::wire::TILE_MAP_EDIT_UNKNOWN3;
use crate::wire::TILE_ZONE_MAP_UNKNOWN2;
use crate::wire::WORLD_MAGIC;
use crate::wire::ZONE_LABEL;
use crate::wire::ZONE_MAP_MAGIC;

verus! {

/// Length of the bytes that precede the encoded stems: document magic,
/// three header fields, and the zone header.
pub open spec fn header_len_v(w: WorldV) -> int {
    16 + spec_enc_zone(w.zone).len() as int
}

/// Byte position at which stem `k` starts (its magic included).
pub open spec fn stem_start_v(w: WorldV, k: int) -> int {
    header_len_v(w) + spec_enc_stems(w.stems.take(k)).len()
}

/// The document with its derived offset and length pairs filled in: the
/// descriptor stem's location in the zone header (and repeated in the
/// document header), and each room stem's location in its room entry, in
/// stem order.
pub open spec fn patched_v(w: WorldV) -> WorldV {
    WorldV {
        zone_stem_offset: stem_start_v(w, 0) as u32,
        room_count: w.room_count,
        zone: ZoneV {
            stem_offset: stem_start_v(w, 0) as u32,
            stem_length: spec_enc_stem(w.stems[0]).len() as u32,
            rooms: Seq::new(
                w.zone.rooms.len(),
                |j: int|
                    LORoom {
                        stem_offset: stem_start_v(w, j + 1) as u32,
                        stem_length: spec_enc_stem(w.stems[j + 1]).len() as u32,
                    },
            ),
        },
        stems: w.stems,
    }
}

/// The boundary positions the measurement pass logs for stems written
/// starting at byte position `base`: for each stem in order, the position
/// after its magic and the position after its content.
pub open spec fn stems_log_entries(base: int, sts: Seq<StemV>) -> Seq<u64>
    decreases sts.len(),
{
    if sts.len() == 0 {
        Seq::empty()
    } else {
        seq![((base + 4) as u64), ((base + spec_enc_stem(sts[0]).len()) as u64)]
            + stems_log_entries(base + spec_enc_stem(sts[0]).len(), sts.drop_first())
    }
}

pub proof fn lemma_log_entries_len(base: int, sts: Seq<StemV>)
    ensures
        stems_log_entries(base, sts).len() == 2 * sts.len(),
    decreases sts.len(),
{
    if sts.len() > 0 {
        lemma_log_entries_len(base + spec_enc_stem(sts[0]).len(), sts.drop_first());
    }
}

/// The two log entries of stem `k`, in terms of the encoded lengths of the
/// stems before it.
pub proof fn lemma_log_entries_index(base: int, sts: Seq<StemV>, k: int)
    requires
        0 <= k < sts.len(),
    ensures
        stems_log_entries(base, sts)[2 * k] == ((base + spec_enc_stems(sts.take(k)).len() + 4)
            as u64),
        stems_log_entries(base, sts)[2 * k + 1] == ((base + spec_enc_stems(sts.take(k)).len()
            + spec_enc_stem(sts[k]).len()) as u64),
    decreases k,
{
    let g = |st: StemV| spec_enc_stem(st);
    lemma_log_entries_len(base + spec_enc_stem(sts[0]).len(), sts.drop_first());
    if k == 0 {
        assert(sts.take(0) =~= Seq::<StemV>::empty());
        assert(spec_enc_stems(Seq::<StemV>::empty()).len() == 0);
    } else {
        lemma_log_entries_index(base + spec_enc_stem(sts[0]).len(), sts.drop_first(), k - 1);
        assert(sts.drop_first()[k - 1] == sts[k]);
        assert(sts.take(k)[0] == sts[0]);
        assert(sts.take(k).drop_first() =~= sts.drop_first().take(k - 1));
        assert(spec_enc_stems(sts.take(k)) == g(sts[0]) + spec_enc_stems(
            sts.drop_first().take(k - 1),
        ));
    }
}

/// Appending one stem appends its two boundary entries.
pub proof fn lemma_log_entries_step(base: int, sts: Seq<StemV>, k: int)
    requires
        0 <= k < sts.len(),
    ensures
        stems_log_entries(base, sts.take(k + 1)) == stems_log_entries(base, sts.take(k)) + seq![
            ((base + spec_enc_stems(sts.take(k)).len() + 4) as u64),
            ((base + spec_enc_stems(sts.take(k)).len() + spec_enc_stem(sts[k]).len()) as u64),
        ],
    decreases k,
{
    let g = |st: StemV| spec_enc_stem(st);
    if k == 0 {
        assert(sts.take(0) =~= Seq::<StemV>::empty());
        assert(sts.take(1)[0] == sts[0]);
        assert(sts.take(1).drop_first() =~= Seq::<StemV>::empty());
        assert(spec_enc_stems(Seq::<StemV>::empty()).len() == 0);
        assert(stems_log_entries(base + spec_enc_stem(sts[0]).len(), Seq::<StemV>::empty())
            =~= Seq::<u64>::empty());
        assert(stems_log_entries(base, sts.take(0)) =~= Seq::<u64>::empty());
        assert(stems_log_entries(base, sts.take(1)) =~= stems_log_entries(base, sts.take(0))
            + seq![
            ((base + spec_enc_stems(sts.take(0)).len() + 4) as u64),
            ((base + spec_enc_stems(sts.take(0)).len() + spec_enc_stem(sts[0]).len()) as u64),
        ]);
    } else {
        lemma_log_entries_step(base + spec_enc_stem(sts[0]).len(), sts.drop_first(), k - 1);
        assert(sts.drop_first()[k - 1] == sts[k]);
        assert(sts.take(k + 1)[0] == sts[0]);
        assert(sts.take(k)[0] == sts[0]);
        assert(sts.take(k + 1).drop_first() =~= sts.drop_first().take(k));
        assert(sts.take(k).drop_first() =~= sts.drop_first().take(k - 1));
        assert(spec_enc_stems(sts.take(k)) == g(sts[0]) + spec_enc_stems(
            sts.drop_first().take(k - 1),
        ));
        assert(stems_log_entries(base, sts.take(k + 1)) =~= stems_log_entries(base, sts.take(k))
            + seq![
            ((base + spec_enc_stems(sts.take(k)).len() + 4) as u64),
            ((base + spec_enc_stems(sts.take(k)).len() + spec_enc_stem(sts[k]).len()) as u64),
        ]);
    }
}

/// Every room entry encodes to the same number of bytes.
#[verifier::rlimit(100)]
pub proof fn lemma_enc_rooms_len(rs: Seq<LORoom>)
    ensures
        spec_enc_rooms(rs).len() == 17 * rs.len(),
    decreases rs.len(),
{
    if rs.len() > 0 {
        lemma_enc_rooms_len(rs.drop_first());
    }
}

/// Patching changes only fixed-width fields: the encoded length of the
/// document, of its zone, and of every prefix of its stems is unchanged.
pub proof fn lemma_patched_len(w: WorldV)
    requires
        world_encodable_v(w),
    ensures
        spec_enc_zone(patched_v(w).zone).len() == spec_enc_zone(w.zone).len(),
        spec_enc_world(patched_v(w)).len() == spec_enc_world(w).len(),
        world_encodable_v(patched_v(w)),
{
    lemma_enc_rooms_len(w.zone.rooms);
    lemma_enc_rooms_len(patched_v(w).zone.rooms);
}

fn write_u8<S: ByteSink>(s: &mut S, v: u8) -> (r: Result<(), LOEncodeError>)
    requires
        old(s).inv(),
    ensures
        final(s).inv(),
        r is Ok ==> final(s).out() == old(s).out() + seq![v],
        old(s).out().len() + 1 <= u64::MAX ==> r is Ok,
{
    let arr = [v];
    let r = s.write_all(arr.as_slice());
    proof {
        assert(arr@ =~= seq![v]);
    }
    r
}

fn write_u16<S: ByteSink>(s: &mut S, v: u16) -> (r: Result<(), LOEncodeError>)
    requires
        old(s).inv(),
    ensures
        final(s).inv(),
        r is Ok ==> final(s).out() == old(s).out() + spec_le16(v),
        old(s).out().len() + 2 <= u64::MAX ==> r is Ok,
{
    let arr = [(v & 0xff) as u8, ((v >> 8u16) & 0xff) as u8];
    let r = s.write_all(arr.as_slice());
    proof {
        assert(arr@ =~= spec_le16(v));
    }
    r
}

fn write_u32<S: ByteSink>(s: &mut S, v: u32) -> (r: Result<(), LOEncodeError>)
    requires
        old(s).inv(),
    ensures
        final(s).inv(),
        r is Ok ==> final(s).out() == old(s).out() + spec_le32(v),
        old(s).out().len() + 4 <= u64::MAX ==> r is Ok,
{
    let arr = [
        (v & 0xff) as u8,
        ((v >> 8u32) & 0xff) as u8,
        ((v >> 16u32) & 0xff) as u8,
        ((v >> 24u32) & 0xff) as u8,
    ];
    let r = s.write_all(arr.as_slice());
    proof {
        assert(arr@ =~= spec_le32(v));
    }
    r
}

#[verifier::rlimit(100)]
fn write_nullstr<S: ByteSink>(s: &mut S, data: &Vec<u8>) -> (r: Result<(), LOEncodeError>)
    requires
        old(s).inv(),
    ensures
        final(s).inv(),
        r is Ok ==> final(s).out() == old(s).out() + spec_enc_nullstr(data@),
        old(s).out().len() + spec_enc_nullstr(data@).len() <= u64::MAX ==> r is Ok,
{
    s.write_all(data.as_slice())?;
    write_u8(s, 0)?;
    proof {
        assert(old(s).out() + data@ + seq![0u8] =~= old(s).out() + spec_enc_nullstr(data@));
    }
    Ok(())
}

#[verifier::rlimit(100)]
fn write_connection<S: ByteSink>(s: &mut S, c: LOConnection) -> (r: Result<(), LOEncodeError>)
    requires
        old(s).inv(),
    ensures
        final(s).inv(),
        r is Ok ==> final(s).out() == old(s).out() + spec_enc_connection(c),
        old(s).out().len() + spec_enc_connection(c).len() <= u64::MAX ==> r is Ok,
{
    write_u16(s, c.x_position)?;
    write_u16(s, c.y_position)?;
    proof {
        assert(old(s).out() + spec_le16(c.x_position) + spec_le16(c.y_position) =~= old(s).out()
            + spec_enc_connection(c));
    }
    Ok(())
}

/// Writes a 32-bit count then the connections themselves.
#[verifier::rlimit(100)]
fn write_connections_counted<S: ByteSink>(s: &mut S, cs: &Vec<LOConnection>) -> (r: Result<
    (),
    LOEncodeError,
>)
    requires
        old(s).inv(),
    ensures
        final(s).inv(),
        r is Ok ==> final(s).out() == old(s).out() + spec_le32(cs@.len() as u32)
            + spec_enc_connections(cs@) && cs@.len() <= u32::MAX,
        old(s).out().len() + 4 + spec_enc_connections(cs@).len() <= u64::MAX && cs@.len()
            <= u32::MAX ==> r is Ok,
{
    let ghost g = |c: LOConnection| spec_enc_connection(c);
    if cs.len() > u32::MAX as usize {
        return Err(LOEncodeError::TooLarge);
    }
    write_u32(s, cs.len() as u32)?;
    let ghost base = s.out();
    proof {
        assert(base + Seq::<u8>::empty() =~= base);
        assert(cs@.skip(0) =~= cs@);
    }
    let mut k: usize = 0;
    while k < cs.len()
        invariant
            g == (|c: LOConnection| spec_enc_connection(c)),
            s.inv(),
            base == old(s).out() + spec_le32(cs@.len() as u32),
            cs@.len() <= u32::MAX,
            k <= cs@.len(),
            s.out() == base + enc_list(cs@.take(k as int), g),
            base.len() + enc_list(cs@, g).len() <= u64::MAX ==> s.out().len() + enc_list(
                cs@.skip(k as int),
                g,
            ).len() <= u64::MAX,
        decreases cs@.len() - k,
    {
        proof {
            lemma_enc_list_split(cs@, g, k as int);
            assert(cs@.skip(k as int)[0] == cs@[k as int]);
        }
        match write_connection(s, cs[k]) {
            Ok(()) => {},
            Err(e) => {
                return Err(e);
            },
        }
        proof {
            lemma_enc_list_take_step(cs@, g, k as int);
            assert(cs@.skip(k as int).drop_first() =~= cs@.skip(k as int + 1));
        }
        k = k + 1;
    }
    proof {
        assert(cs@.take(cs@.len() as int) =~= cs@);
        assert(base + spec_enc_connections(cs@) =~= old(s).out() + spec_le32(cs@.len() as u32)
            + spec_enc_connections(cs@));
    }
    Ok(())
}

#[verifier::rlimit(100)]
fn write_stack_tile<S: ByteSink>(s: &mut S, t: LOStackTile) -> (r: Result<(), LOEncodeError>)
    requires
        old(s).inv(),
    ensures
        final(s).inv(),
        r is Ok ==> final(s).out() == old(s).out() + spec_enc_stack_tile(t),
        old(s).out().len() + spec_enc_stack_tile(t).len() <= u64::MAX ==> r is Ok,
{
    if matches!(t, LOStackTile::PrimeKey) {
        let arr = [0x0Eu8, 0x00u8, 0x00u8, 0x00u8, 0x00u8, 0x00u8];
        let r = s.write_all(arr.as_slice());
        proof {
            assert(arr@ =~= spec_enc_stack_tile(t));
        }
        r
    } else {
        write_u16(s, t.tag())
    }
}

#[verifier::rlimit(100)]
fn write_stack_element<S: ByteSink>(s: &mut S, e: &LOStackElement) -> (r: Result<
    (),
    LOEncodeError,
>)
    requires
        old(s).inv(),
    ensures
        final(s).inv(),
        r is Ok ==> final(s).out() == old(s).out() + spec_enc_stack_element(e@) && (e@.tile
            is ToggleSwitch ==> e@.connections.len() <= u32::MAX),
        old(s).out().len() + spec_enc_stack_element(e@).len() <= u64::MAX && (e@.tile
            is ToggleSwitch ==> e@.connections.len() <= u32::MAX) ==> r is Ok,
{
    write_stack_tile(s, e.tile)?;
    write_u16(s, e.direction.code())?;
    if matches!(e.tile, LOStackTile::ToggleSwitch) {
        write_connections_counted(s, &e.connections)?;
        proof {
            assert(s.out() =~= old(s).out() + spec_enc_stack_element(e@));
        }
        Ok(())
    } else {
        proof {
            assert(spec_enc_stack_element(e@) =~= spec_enc_stack_tile(e@.tile) + spec_le16(
                e@.direction.spec_code(),
            ));
            assert(s.out() =~= old(s).out() + spec_enc_stack_element(e@));
        }
        Ok(())
    }
}

#[verifier::rlimit(100)]
fn write_tile<S: ByteSink>(s: &mut S, t: &LOTile) -> (r: Result<(), LOEncodeError>)
    requires
        old(s).inv(),
    ensures
        final(s).inv(),
        r is Ok ==> final(s).out() == old(s).out() + spec_enc_tile(t@) && tile_encodable_v(t@),
        old(s).out().len() + spec_enc_tile(t@).len() <= u64::MAX && tile_encodable_v(t@) ==> r
            is Ok,
{
    write_u32(s, t.tag())?;
    match t {
        LOTile::PressurePlate { connections } => {
            write_connections_counted(s, connections)?;
        },
        LOTile::SacrificeAltar { connections } => {
            write_connections_counted(s, connections)?;
        },
        LOTile::ToggleSwitch { connections } => {
            write_connections_counted(s, connections)?;
        },
        LOTile::StartPoint { direction } => {
            write_u32(s, direction.code())?;
        },
        LOTile::BombBug { direction } => {
            write_u32(s, direction.code())?;
        },
        LOTile::Slug { direction } => {
            write_u32(s, direction.code())?;
        },
        LOTile::FlyingSnake { direction } => {
            write_u32(s, direction.code())?;
        },
        LOTile::Sign { text } => {
            write_nullstr(s, text)?;
        },
        LOTile::Stack { tiles } => {
            write_stack_elements_counted(s, tiles)?;
        },
        _ => {},
    }
    proof {
        assert(s.out() =~= old(s).out() + spec_enc_tile(t@));
    }
    Ok(())
}

/// Writes a 32-bit count then the stack elements themselves.
#[verifier::rlimit(100)]
fn write_stack_elements_counted<S: ByteSink>(s: &mut S, es: &Vec<LOStackElement>) -> (r: Result<
    (),
    LOEncodeError,
>)
    requires
        old(s).inv(),
    ensures
        final(s).inv(),
        r is Ok ==> final(s).out() == old(s).out() + spec_le32(es.deep_view().len() as u32)
            + spec_enc_stack_elements(es.deep_view()) && es.deep_view().len() <= u32::MAX
            && (forall|k: int|
            0 <= k < es.deep_view().len() ==> (#[trigger] es.deep_view()[k]).tile
                is ToggleSwitch ==> es.deep_view()[k].connections.len() <= u32::MAX),
        old(s).out().len() + 4 + spec_enc_stack_elements(es.deep_view()).len() <= u64::MAX
            && es.deep_view().len() <= u32::MAX && (forall|k: int|
            0 <= k < es.deep_view().len() ==> (#[trigger] es.deep_view()[k]).tile
                is ToggleSwitch ==> es.deep_view()[k].connections.len() <= u32::MAX) ==> r
            is Ok,
{
    let ghost g = |e: crate::views::StackElementV| spec_enc_stack_element(e);
    if es.len() > u32::MAX as usize {
        return Err(LOEncodeError::TooLarge);
    }
    write_u32(s, es.len() as u32)?;
    let ghost base = s.out();
    proof {
        assert(base + Seq::<u8>::empty() =~= base);
        assert(es.deep_view().skip(0) =~= es.deep_view());
    }
    let mut k: usize = 0;
    while k < es.len()
        invariant
            g == (|e: crate::views::StackElementV| spec_enc_stack_element(e)),
            s.inv(),
            base == old(s).out() + spec_le32(es.deep_view().len() as u32),
            es@.len() <= u32::MAX,
            k <= es.deep_view().len(),
            es.deep_view().len() == es@.len(),
            s.out() == base + enc_list(es.deep_view().take(k as int), g),
            forall|m: int|
                0 <= m < k ==> (#[trigger] es.deep_view()[m]).tile is ToggleSwitch
                    ==> es.deep_view()[m].connections.len() <= u32::MAX,
            base.len() + enc_list(es.deep_view(), g).len() <= u64::MAX ==> s.out().len()
                + enc_list(es.deep_view().skip(k as int), g).len() <= u64::MAX,
        decreases es@.len() - k,
    {
        proof {
            lemma_enc_list_split(es.deep_view(), g, k as int);
            assert(es.deep_view().skip(k as int)[0] == es.deep_view()[k as int]);
            assert(es.deep_view()[k as int] == es@[k as int]@);
        }
        match write_stack_element(s, &es[k]) {
            Ok(()) => {},
            Err(e) => {
                return Err(e);
            },
        }
        proof {
            lemma_enc_list_take_step(es.deep_view(), g, k as int);
            assert(es.deep_view().skip(k as int).drop_first() =~= es.deep_view().skip(
                k as int + 1,
            ));
        }
        k = k + 1;
    }
    proof {
        assert(es.deep_view().take(es.deep_view().len() as int) =~= es.deep_view());
        assert(base + spec_enc_stack_elements(es.deep_view()) =~= old(s).out() + spec_le32(
            es.deep_view().len() as u32,
        ) + spec_enc_stack_elements(es.deep_view()));
    }
    Ok(())
}

#[verifier::rlimit(100)]
fn write_tiles<S: ByteSink>(s: &mut S, ts: &Vec<LOTile>) -> (r: Result<(), LOEncodeError>)
    requires
        old(s).inv(),
    ensures
        final(s).inv(),
        r is Ok ==> final(s).out() == old(s).out() + spec_enc_tiles(ts.deep_view()) && (forall|
            k: int,
        |
            0 <= k < ts.deep_view().len() ==> tile_encodable_v(#[trigger] ts.deep_view()[k])),
        old(s).out().len() + spec_enc_tiles(ts.deep_view()).len() <= u64::MAX && (forall|k: int|
            0 <= k < ts.deep_view().len() ==> tile_encodable_v(#[trigger] ts.deep_view()[k]))
            ==> r is Ok,
{
    let ghost g = |t: crate::views::TileV| spec_enc_tile(t);
    let ghost base = s.out();
    proof {
        assert(base + Seq::<u8>::empty() =~= base);
        assert(ts.deep_view().skip(0) =~= ts.deep_view());
    }
    let mut k: usize = 0;
    while k < ts.len()
        invariant
            g == (|t: crate::views::TileV| spec_enc_tile(t)),
            s.inv(),
            base == old(s).out(),
            k <= ts.deep_view().len(),
            ts.deep_view().len() == ts@.len(),
            s.out() == base + enc_list(ts.deep_view().take(k as int), g),
            forall|m: int| 0 <= m < k ==> tile_encodable_v(#[trigger] ts.deep_view()[m]),
            base.len() + enc_list(ts.deep_view(), g).len() <= u64::MAX ==> s.out().len()
                + enc_list(ts.deep_view().skip(k as int), g).len() <= u64::MAX,
        decreases ts@.len() - k,
    {
        proof {
            lemma_enc_list_split(ts.deep_view(), g, k as int);
            assert(ts.deep_view().skip(k as int)[0] == ts.deep_view()[k as int]);
            assert(ts.deep_view()[k as int] == ts@[k as int]@);
        }
        match write_tile(s, &ts[k]) {
            Ok(()) => {},
            Err(e) => {
                return Err(e);
            },
        }
        proof {
            lemma_enc_list_take_step(ts.deep_view(), g, k as int);
            assert(ts.deep_view().skip(k as int).drop_first() =~= ts.deep_view().skip(
                k as int + 1,
            ));
        }
        k = k + 1;
    }
    proof {
        assert(ts.deep_view().take(ts.deep_view().len() as int) =~= ts.deep_view());
    }
    Ok(())
}

#[verifier::rlimit(100)]
fn write_layer<S: ByteSink>(s: &mut S, l: &LOLayer) -> (r: Result<(), LOEncodeError>)
    requires
        old(s).inv(),
    ensures
        final(s).inv(),
        r is Ok ==> final(s).out() == old(s).out() + spec_enc_layer(l@) && layer_encodable_v(l@),
        old(s).out().len() + spec_enc_layer(l@).len() <= u64::MAX && layer_encodable_v(l@) ==> r
            is Ok,
{
    proof {
        assert((l.width as int) * (l.height as int) < 0x100000000int) by (nonlinear_arith)
            requires
                l.width <= 0xFFFFu16,
                l.height <= 0xFFFFu16,
        ;
    }
    if l.tiles.len() != (l.width as usize) * (l.height as usize) {
        return Err(LOEncodeError::StructureMismatch);
    }
    s.write_all(LAYER_PREFIX.as_slice())?;
    write_u16(s, l.width)?;
    write_u16(s, l.height)?;
    s.write_all(LAYER_INFIX.as_slice())?;
    write_u32(s, (l.width as u32) * (l.height as u32))?;
    write_tiles(s, &l.tiles)?;
    proof {
        assert(s.out() =~= old(s).out() + spec_enc_layer(l@));
    }
    Ok(())
}

#[verifier::rlimit(100)]
fn write_layers<S: ByteSink>(s: &mut S, ls: &Vec<LOLayer>) -> (r: Result<(), LOEncodeError>)
    requires
        old(s).inv(),
    ensures
        final(s).inv(),
        r is Ok ==> final(s).out() == old(s).out() + spec_enc_layers(ls.deep_view()) && (forall|
            k: int,
        |
            0 <= k < ls.deep_view().len() ==> layer_encodable_v(#[trigger] ls.deep_view()[k])),
        old(s).out().len() + spec_enc_layers(ls.deep_view()).len() <= u64::MAX && (forall|k: int|
            0 <= k < ls.deep_view().len() ==> layer_encodable_v(#[trigger] ls.deep_view()[k]))
            ==> r is Ok,
{
    let ghost g = |l: crate::views::LayerV| spec_enc_layer(l);
    let ghost base = s.out();
    proof {
        assert(base + Seq::<u8>::empty() =~= base);
        assert(ls.deep_view().skip(0) =~= ls.deep_view());
    }
    let mut k: usize = 0;
    while k < ls.len()
        invariant
            g == (|l: crate::views::LayerV| spec_enc_layer(l)),
            s.inv(),
            base == old(s).out(),
            k <= ls.deep_view().len(),
            ls.deep_view().len() == ls@.len(),
            s.out() == base + enc_list(ls.deep_view().take(k as int), g),
            forall|m: int| 0 <= m < k ==> layer_encodable_v(#[trigger] ls.deep_view()[m]),
            base.len() + enc_list(ls.deep_view(), g).len() <= u64::MAX ==> s.out().len()
                + enc_list(ls.deep_view().skip(k as int), g).len() <= u64::MAX,
        decreases ls@.len() - k,
    {
        proof {
            lemma_enc_list_split(ls.deep_view(), g, k as int);
            assert(ls.deep_view().skip(k as int)[0] == ls.deep_view()[k as int]);
            assert(ls.deep_view()[k as int] == ls@[k as int]@);
        }
        match write_layer(s, &ls[k]) {
            Ok(()) => {},
            Err(e) => {
                return Err(e);
            },
        }
        proof {
            lemma_enc_list_take_step(ls.deep_view(), g, k as int);
            assert(ls.deep_view().skip(k as int).drop_first() =~= ls.deep_view().skip(
                k as int + 1,
            ));
        }
        k = k + 1;
    }
    proof {
        assert(ls.deep_view().take(ls.deep_view().len() as int) =~= ls.deep_view());
    }
    Ok(())
}

#[verifier::rlimit(100)]
fn write_roominfo<S: ByteSink>(s: &mut S, ri: LORoomInfo) -> (r: Result<(), LOEncodeError>)
    requires
        old(s).inv(),
    ensures
        final(s).inv(),
        r is Ok ==> final(s).out() == old(s).out() + spec_enc_roominfo(ri),
        old(s).out().len() + spec_enc_roominfo(ri).len() <= u64::MAX ==> r is Ok,
{
    write_u32(s, ri.id)?;
    write_u16(s, ri.x_position as u16)?;
    write_u16(s, ri.y_position as u16)?;
    write_u16(s, ri.width)?;
    write_u16(s, ri.height)?;
    write_u16(s, ri.z_position as u16)?;
    write_u16(s, 0)?;
    proof {
        assert(s.out() =~= old(s).out() + spec_enc_roominfo(ri));
    }
    Ok(())
}

#[verifier::rlimit(100)]
fn write_roominfos<S: ByteSink>(s: &mut S, ris: &Vec<LORoomInfo>) -> (r: Result<
    (),
    LOEncodeError,
>)
    requires
        old(s).inv(),
    ensures
        final(s).inv(),
        r is Ok ==> final(s).out() == old(s).out() + spec_enc_roominfos(ris@),
        old(s).out().len() + spec_enc_roominfos(ris@).len() <= u64::MAX ==> r is Ok,
{
    let ghost g = |ri: LORoomInfo| spec_enc_roominfo(ri);
    let ghost base = s.out();
    proof {
        assert(base + Seq::<u8>::empty() =~= base);
        assert(ris@.skip(0) =~= ris@);
    }
    let mut k: usize = 0;
    while k < ris.len()
        invariant
            g == (|ri: LORoomInfo| spec_enc_roominfo(ri)),
            s.inv(),
            base == old(s).out(),
            k <= ris@.len(),
            s.out() == base + enc_list(ris@.take(k as int), g),
            base.len() + enc_list(ris@, g).len() <= u64::MAX ==> s.out().len() + enc_list(
                ris@.skip(k as int),
                g,
            ).len() <= u64::MAX,
        decreases ris@.len() - k,
    {
        proof {
            lemma_enc_list_split(ris@, g, k as int);
            assert(ris@.skip(k as int)[0] == ris@[k as int]);
        }
        match write_roominfo(s, ris[k]) {
            Ok(()) => {},
            Err(e) => {
                return Err(e);
            },
        }
        proof {
            lemma_enc_list_take_step(ris@, g, k as int);
            assert(ris@.skip(k as int).drop_first() =~= ris@.skip(k as int + 1));
        }
        k = k + 1;
    }
    proof {
        assert(ris@.take(ris@.len() as int) =~= ris@);
    }
    Ok(())
}

#[verifier::rlimit(100)]
fn write_content<S: ByteSink>(s: &mut S, c: &LOStemContent) -> (r: Result<(), LOEncodeError>)
    requires
        old(s).inv(),
    ensures
        final(s).inv(),
        r is Ok ==> final(s).out() == old(s).out() + spec_enc_content(c@) && content_encodable_v(
            c@,
        ),
        old(s).out().len() + spec_enc_content(c@).len() <= u64::MAX && content_encodable_v(c@)
            ==> r is Ok,
{
    match c {
        LOStemContent::TileZoneMap {
            name,
            room_info,
            description,
            author,
            guid_world,
            guid_author1,
            guid_author2,
            world_revision,
            unknown4,
        } => {
            if room_info.len() > u32::MAX as usize {
                return Err(LOEncodeError::TooLarge);
            }
            s.write_all(ZONE_MAP_MAGIC.as_slice())?;
            write_u16(s, 0)?;
            write_u32(s, 1)?;
            write_nullstr(s, name)?;
            s.write_all(TILE_ZONE_MAP_UNKNOWN2.as_slice())?;
            write_u32(s, room_info.len() as u32)?;
            write_roominfos(s, room_info)?;
            write_u32(s, 1)?;
            write_nullstr(s, description)?;
            write_nullstr(s, author)?;
            write_u32(s, *guid_world)?;
            let pad1 = [0u8, 0u8, 0u8, 0u8];
            s.write_all(pad1.as_slice())?;
            write_u32(s, *guid_author1)?;
            let pad2 = [0u8, 0u8, 0u8, 0u8];
            s.write_all(pad2.as_slice())?;
            write_u32(s, *guid_author2)?;
            write_u32(s, *world_revision)?;
            write_u32(s, room_info.len() as u32)?;
            write_u32(s, *unknown4)?;
            proof {
                assert(pad1@ =~= seq![0u8, 0u8, 0u8, 0u8]);
                assert(pad2@ =~= seq![0u8, 0u8, 0u8, 0u8]);
                assert(s.out() =~= old(s).out() + spec_enc_content(c@));
            }
            Ok(())
        },
        LOStemContent::TileMapEdit { id, name, width, height, layers, music, revision } => {
            if layers.len() > u32::MAX as usize {
                return Err(LOEncodeError::TooLarge);
            }
            s.write_all(MAP_EDIT_MAGIC.as_slice())?;
            write_u16(s, 0)?;
            write_u32(s, *id)?;
            write_nullstr(s, name)?;
            write_u16(s, *width)?;
            write_u16(s, *height)?;
            s.write_all(TILE_MAP_EDIT_UNKNOWN3.as_slice())?;
            write_u32(s, layers.len() as u32)?;
            write_layers(s, layers)?;
            write_u32(s, music.code() as u32)?;
            write_u32(s, *revision)?;
            proof {
                assert(s.out() =~= old(s).out() + spec_enc_content(c@));
            }
            Ok(())
        },
    }
}

/// Writes one stem and appends the positions of its two record boundaries
/// (after the magic, and after the content) to the position log.
#[verifier::rlimit(100)]
fn write_stem<S: ByteSink>(s: &mut S, log: &mut PositionLog, st: &LOStem) -> (r: Result<
    (),
    LOEncodeError,
>)
    requires
        old(s).inv(),
    ensures
        final(s).inv(),
        r is Ok ==> final(s).out() == old(s).out() + spec_enc_stem(st@) && content_encodable_v(
            st@.content,
        ) && final(log).positions@ == old(log).positions@ + seq![
            ((old(s).out().len() + 4) as u64),
            ((old(s).out().len() + spec_enc_stem(st@).len()) as u64),
        ],
        old(s).out().len() + spec_enc_stem(st@).len() <= u64::MAX && content_encodable_v(
            st@.content,
        ) ==> r is Ok,
{
    s.write_all(STEM_MAGIC.as_slice())?;
    let p1 = s.stream_position();
    log.positions.push(p1);
    write_content(s, &st.content)?;
    let p2 = s.stream_position();
    log.positions.push(p2);
    proof {
        assert(s.out() =~= old(s).out() + spec_enc_stem(st@));
        assert(log.positions@ =~= old(log).positions@ + seq![
            ((old(s).out().len() + 4) as u64),
            ((old(s).out().len() + spec_enc_stem(st@).len()) as u64),
        ]);
    }
    Ok(())
}

#[verifier::rlimit(100)]
fn write_stems<S: ByteSink>(s: &mut S, log: &mut PositionLog, sts: &Vec<LOStem>) -> (r: Result<
    (),
    LOEncodeError,
>)
    requires
        old(s).inv(),
    ensures
        final(s).inv(),
        r is Ok ==> final(s).out() == old(s).out() + spec_enc_stems(sts.deep_view()) && (forall|
            k: int,
        |
            0 <= k < sts.deep_view().len() ==> content_encodable_v(
                (#[trigger] sts.deep_view()[k]).content,
            )) && final(log).positions@ == old(log).positions@ + stems_log_entries(
            old(s).out().len() as int,
            sts.deep_view(),
        ),
        old(s).out().len() + spec_enc_stems(sts.deep_view()).len() <= u64::MAX && (forall|k: int|
            0 <= k < sts.deep_view().len() ==> content_encodable_v(
                (#[trigger] sts.deep_view()[k]).content,
            )) ==> r is Ok,
{
    let ghost g = |st: StemV| spec_enc_stem(st);
    let ghost base = s.out();
    let ghost logbase = log.positions@;
    proof {
        assert(base + Seq::<u8>::empty() =~= base);
        assert(sts.deep_view().skip(0) =~= sts.deep_view());
        assert(stems_log_entries(base.len() as int, sts.deep_view().take(0)) =~= Seq::<u64>::empty());
        assert(logbase + Seq::<u64>::empty() =~= logbase);
    }
    let mut k: usize = 0;
    while k < sts.len()
        invariant
            g == (|st: StemV| spec_enc_stem(st)),
            s.inv(),
            base == old(s).out(),
            logbase == old(log).positions@,
            k <= sts.deep_view().len(),
            sts.deep_view().len() == sts@.len(),
            s.out() == base + enc_list(sts.deep_view().take(k as int), g),
            log.positions@ == logbase + stems_log_entries(
                base.len() as int,
                sts.deep_view().take(k as int),
            ),
            forall|m: int|
                0 <= m < k ==> content_encodable_v((#[trigger] sts.deep_view()[m]).content),
            base.len() + enc_list(sts.deep_view(), g).len() <= u64::MAX ==> s.out().len()
                + enc_list(sts.deep_view().skip(k as int), g).len() <= u64::MAX,
        decreases sts@.len() - k,
    {
        proof {
            lemma_enc_list_split(sts.deep_view(), g, k as int);
            assert(sts.deep_view().skip(k as int)[0] == sts.deep_view()[k as int]);
            assert(sts.deep_view()[k as int] == sts@[k as int]@);
        }
        match write_stem(s, log, &sts[k]) {
            Ok(()) => {},
            Err(e) => {
                return Err(e);
            },
        }
        proof {
            lemma_enc_list_take_step(sts.deep_view(), g, k as int);
            lemma_log_entries_step(base.len() as int, sts.deep_view(), k as int);
            assert(sts.deep_view().skip(k as int).drop_first() =~= sts.deep_view().skip(
                k as int + 1,
            ));
        }
        k = k + 1;
    }
    proof {
        assert(sts.deep_view().take(sts.deep_view().len() as int) =~= sts.deep_view());
    }
    Ok(())
}

#[verifier::rlimit(100)]
fn write_room<S: ByteSink>(s: &mut S, r0: LORoom) -> (r: Result<(), LOEncodeError>)
    requires
        old(s).inv(),
    ensures
        final(s).inv(),
        r is Ok ==> final(s).out() == old(s).out() + spec_enc_room(r0),
        old(s).out().len() + spec_enc_room(r0).len() <= u64::MAX ==> r is Ok,
{
    write_u32(s, 1002)?;
    write_u32(s, r0.stem_offset)?;
    write_u32(s, r0.stem_length)?;
    write_u8(s, 4)?;
    s.write_all(ROOM_LABEL.as_slice())?;
    proof {
        assert(s.out() =~= old(s).out() + spec_enc_room(r0));
    }
    Ok(())
}

#[verifier::rlimit(100)]
fn write_zone<S: ByteSink>(s: &mut S, z: &LOZone) -> (r: Result<(), LOEncodeError>)
    requires
        old(s).inv(),
    ensures
        final(s).inv(),
        r is Ok ==> final(s).out() == old(s).out() + spec_enc_zone(z@),
        old(s).out().len() + spec_enc_zone(z@).len() <= u64::MAX ==> r is Ok,
{
    let ghost g = |r0: LORoom| spec_enc_room(r0);
    write_u32(s, 1007)?;
    write_u32(s, z.stem_offset)?;
    write_u32(s, z.stem_length)?;
    write_u8(s, 4)?;
    s.write_all(ZONE_LABEL.as_slice())?;
    let ghost base = s.out();
    proof {
        assert(base + Seq::<u8>::empty() =~= base);
        assert(z.rooms@.skip(0) =~= z.rooms@);
    }
    let mut k: usize = 0;
    while k < z.rooms.len()
        invariant
            g == (|r0: LORoom| spec_enc_room(r0)),
            s.inv(),
            base == old(s).out() + spec_le32(1007) + spec_le32(z.stem_offset) + spec_le32(z.stem_length) + seq![4u8] + ZONE_LABEL@,
            k <= z.rooms@.len(),
            s.out() == base + enc_list(z.rooms@.take(k as int), g),
            base.len() + enc_list(z.rooms@, g).len() <= u64::MAX ==> s.out().len() + enc_list(
                z.rooms@.skip(k as int),
                g,
            ).len() <= u64::MAX,
        decreases z.rooms@.len() - k,
    {
        proof {
            lemma_enc_list_split(z.rooms@, g, k as int);
            assert(z.rooms@.skip(k as int)[0] == z.rooms@[k as int]);
        }
        match write_room(s, z.rooms[k]) {
            Ok(()) => {},
            Err(e) => {
                return Err(e);
            },
        }
        proof {
            lemma_enc_list_take_step(z.rooms@, g, k as int);
            assert(z.rooms@.skip(k as int).drop_first() =~= z.rooms@.skip(k as int + 1));
        }
        k = k + 1;
    }
    proof {
        assert(z.rooms@.take(z.rooms@.len() as int) =~= z.rooms@);
        assert(s.out() =~= old(s).out() + spec_enc_zone(z@));
    }
    Ok(())
}

/// Serializes a whole document. The identical routine runs in both passes
/// of the two-pass write; the position log records each stem's boundaries
/// relative to the start of the sink's output.
#[verifier::rlimit(100)]
fn write_world_bytes<S: ByteSink>(s: &mut S, log: &mut PositionLog, w: &LOWorld) -> (r: Result<
    (),
    LOEncodeError,
>)
    requires
        old(s).inv(),
    ensures
        final(s).inv(),
        r is Ok ==> final(s).out() == old(s).out() + spec_enc_world(w@) && world_encodable_v(w@)
            && final(log).positions@ == old(log).positions@ + stems_log_entries(
            old(s).out().len() + 16 + spec_enc_zone(w@.zone).len() as int,
            w@.stems,
        ),
        old(s).out().len() + spec_enc_world(w@).len() <= u64::MAX && world_encodable_v(w@) ==> r
            is Ok,
{
    if w.room_count == u32::MAX {
        return Err(LOEncodeError::TooLarge);
    }
    if w.stems.len() == 0 || w.stems.len() - 1 != w.zone.rooms.len() {
        return Err(LOEncodeError::StructureMismatch);
    }
    s.write_all(WORLD_MAGIC.as_slice())?;
    write_u32(s, 0)?;
    write_u32(s, w.zone_stem_offset)?;
    write_u32(s, w.room_count + 1)?;
    write_zone(s, &w.zone)?;
    write_stems(s, log, &w.stems)?;
    proof {
        assert(s.out() =~= old(s).out() + spec_enc_world(w@));
    }
    Ok(())
}

/// The conditions under which an encode succeeds: the document is
/// encodable, its encoding's offsets fit the 32-bit header fields, and
/// the destination can take the bytes.
pub open spec fn write_world_ok(w: WorldV, sink_pos: nat) -> bool {
    &&& world_encodable_v(w)
    &&& spec_enc_world(w).len() <= u32::MAX
    &&& sink_pos + spec_enc_world(w).len() <= u64::MAX
}

impl LOWorld {
    /// Encodes this document into the sink with the two-pass back-patching
    /// algorithm: a measurement pass into a counting sink fills a fresh
    /// position log; the derived offset and length pairs are patched into
    /// the zone header in stem order (descriptor first, then one pair per
    /// room); and the identical serializer then writes the real bytes.
    /// On success the document is exactly its patched self and the sink
    /// holds exactly its encoding; on failure nothing is changed.
    #[verifier::rlimit(100)]
    pub fn write_world<S: ByteSink>(&mut self, sink: &mut S) -> (r: Result<(), LOEncodeError>)
        requires
            old(sink).inv(),
        ensures
            final(sink).inv(),
            r is Ok ==> final(self)@ == patched_v(old(self)@) && final(sink).out() == old(
                sink,
            ).out() + spec_enc_world(final(self)@),
            r is Err ==> *final(self) == *old(self) && final(sink).out() == old(sink).out(),
            r is Ok <==> write_world_ok(old(self)@, old(sink).out().len()),
    {
        let ghost w0 = self@;
        // Measurement pass: count bytes, log stem boundaries.
        let mut msink = NullSink::new();
        let mut log = PositionLog::new();
        match write_world_bytes(&mut msink, &mut log, self) {
            Ok(()) => {},
            Err(e) => {
                return Err(e);
            },
        }
        let total = msink.stream_position();
        if total > u32::MAX as u64 {
            return Err(LOEncodeError::TooLarge);
        }
        let spos = sink.stream_position();
        if u64::MAX - spos < total {
            return Err(LOEncodeError::TooLarge);
        }
        proof {
            lemma_log_entries_len(header_len_v(w0), w0.stems);
            lemma_log_entries_index(header_len_v(w0), w0.stems, 0);
            assert(w0.stems.take(0) =~= Seq::<StemV>::empty());
            lemma_enc_list_split(w0.stems, |st: StemV| spec_enc_stem(st), 0);
            assert(self@.stems.len() == self.stems@.len());
        }
        // Drain the log into the header fields, in emission order.
        if log.positions.len() % 2 != 0 || log.positions.len() / 2 != self.stems.len() {
            return Err(LOEncodeError::StructureMismatch);
        }
        let start0 = log.positions[0];
        let end0 = log.positions[1];
        self.zone_stem_offset = ((start0 - 4) as u32);
        self.zone.stem_offset = self.zone_stem_offset;
        self.zone.stem_length = ((end0 - start0 + 4) as u32);
        let room_n = self.zone.rooms.len();
        let mut new_rooms: Vec<LORoom> = Vec::new();
        let mut j: usize = 0;
        while j < room_n
            invariant
                room_n == w0.zone.rooms.len(),
                w0.stems.len() == room_n + 1,
                world_encodable_v(w0),
                spec_enc_world(w0).len() <= u32::MAX,
                log.positions@ == stems_log_entries(header_len_v(w0), w0.stems),
                log.positions@.len() == 2 * w0.stems.len(),
                log.positions@.len() <= usize::MAX,
                j <= room_n,
                new_rooms@ =~= patched_v(w0).zone.rooms.take(j as int),
            decreases room_n - j,
        {
            proof {
                lemma_log_entries_index(header_len_v(w0), w0.stems, j + 1);
                lemma_stem_bounds(w0, j + 1);
                assert(2 * (j + 1) + 1 < log.positions@.len());
            }
            let sk = log.positions[2 * (j + 1)];
            let ek = log.positions[2 * (j + 1) + 1];
            new_rooms.push(
                LORoom { stem_offset: ((sk - 4) as u32), stem_length: ((ek - sk + 4) as u32) },
            );
            proof {
                assert(new_rooms@ =~= patched_v(w0).zone.rooms.take(j + 1));
            }
            j = j + 1;
        }
        self.zone.rooms = new_rooms;
        proof {
            assert(patched_v(w0).zone.rooms.take(room_n as int) =~= patched_v(w0).zone.rooms);
            assert(self@ =~~= patched_v(w0));
            lemma_patched_len(w0);
        }
        // Real pass: identical serializer, real destination, fresh log.
        let mut log2 = PositionLog::new();
        match write_world_bytes(sink, &mut log2, self) {
            Ok(()) => Ok(()),
            Err(_) => {
                proof {
                    assert(false);
                }
                Err(LOEncodeError::StructureMismatch)
            },
        }
    }
}

/// Stem `k` begins at least four bytes into the file and ends within it.
proof fn lemma_stem_bounds(w: WorldV, k: int)
    requires
        world_encodable_v(w),
        0 <= k < w.stems.len(),
    ensures
        4 <= header_len_v(w) + spec_enc_stems(w.stems.take(k)).len(),
        header_len_v(w) + spec_enc_stems(w.stems.take(k)).len() + spec_enc_stem(
            w.stems[k],
        ).len() <= spec_enc_world(w).len(),
        spec_enc_stem(w.stems[k]).len() >= 4,
{
    let g = |st: StemV| spec_enc_stem(st);
    lemma_enc_list_split(w.stems, g, k);
    assert(w.stems.skip(k)[0] == w.stems[k]);
    assert(enc_list(w.stems.skip(k), g) == g(w.stems[k]) + enc_list(
        w.stems.skip(k).drop_first(),
        g,
    ));
}

/// Encodes a document into fresh bytes; the document's derived offset and
/// length fields are patched in place.
pub fn encode(world: &mut LOWorld) -> (r: Result<Vec<u8>, LOEncodeError>)
    ensures
        r is Ok ==> final(world)@ == patched_v(old(world)@) && r->Ok_0@ == spec_enc_world(
            final(world)@,
        ),
        r is Err ==> *final(world) == *old(world),
        r is Ok <==> world_encodable_v(old(world)@) && spec_enc_world(old(world)@).len()
            <= u32::MAX,
{
    let mut sink = VecSink::new();
    match world.write_world(&mut sink) {
        Ok(()) => Ok(sink.into_bytes()),
        Err(e) => Err(e),
    }
}

} // verus!
