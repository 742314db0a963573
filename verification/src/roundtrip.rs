//! The round-trip theorem: a well-formed document's encoding parses back
//! to exactly that document. Proved bottom-up, one wire production at a
//! time, against the encoder and parser specifications.

use vstd::prelude::*;
use crate::data::LORoom;
use crate::data::LORoomInfo;
use crate::parse::parse_room;
use crate::parse::parse_rooms;
use crate::parse::parse_stem;
use crate::parse::parse_stems_to_end;
use crate::parse::parse_world;
use crate::parse::parse_zone;
use crate::parse::parse_connection;
use crate::parse::parse_connections;
use crate::parse::parse_exact;
use crate::parse::parse_nullstr;
use crate::parse::parse_u16;
use crate::parse::parse_u32;
use crate::parse::parse_roominfo;
use crate::parse::parse_content;
use crate::parse::parse_map_edit_body;
use crate::parse::parse_zone_map_body;
use crate::parse::parse_layer;
use crate::parse::parse_layers;
use crate::parse::parse_roominfos;
use crate::parse::parse_stack_elements;
use crate::parse::parse_tile;
use crate::parse::parse_tiles;
use crate::parse::parse_stack_element;
use crate::parse::parse_stack_tile;
use crate::tags::lemma_stack_tag_round_trip;
use crate::tags::spec_stack_tile_from_tag;
use crate::tiles::LOConnection;
use crate::tiles::LOStackTile;
use crate::tiles::lemma_direction_code_round_trip;
use crate::tiles::LOMusic;
use crate::views::is_conns_tag;
use crate::views::is_dir_tag;
use crate::views::wf_stack_element_v;
use crate::views::wf_content_v;
use crate::views::wf_stem_v;
use crate::views::wf_world_v;
use crate::views::wf_layer_v;
use crate::views::wf_tile_v;
use crate::views::StackElementV;
use crate::views::ContentV;
use crate::views::StemV;
use crate::views::WorldV;
use crate::views::ZoneV;
use crate::views::LayerV;
use crate::views::TileV;
use crate::wire::spec_enc_connections;
use crate::wire::spec_enc_roominfo;
use crate::wire::spec_enc_stack_element;
use crate::wire::spec_enc_stack_elements;
use crate::wire::spec_enc_stack_tile;
use crate::wire::spec_enc_roominfos;
use crate::wire::spec_enc_tile;
use crate::wire::spec_enc_tile_payload;
use crate::wire::spec_enc_tiles;
use crate::wire::spec_enc_content;
use crate::wire::spec_enc_layer;
use crate::wire::spec_enc_layers;
use crate::wire::LAYER_INFIX;
use crate::wire::LAYER_PREFIX;
use crate::wire::MAP_EDIT_MAGIC;
use crate::wire::TILE_MAP_EDIT_UNKNOWN3;
use crate::wire::TILE_ZONE_MAP_UNKNOWN2;
use crate::wire::ZONE_MAP_MAGIC;
use crate::wire::spec_enc_room;
use crate::wire::spec_enc_rooms;
use crate::wire::spec_enc_stem;
use crate::wire::spec_enc_stems;
use crate::wire::spec_enc_world;
use crate::wire::spec_enc_zone;
use crate::wire::ROOM_LABEL;
use crate::wire::STEM_MAGIC;
use crate::wire::WORLD_MAGIC;
use crate::wire::ZONE_LABEL;
use crate::views::spec_text_wf;
use crate::wire::enc_list;
use crate::wire::lemma_le16_round_trip;
use crate::wire::lemma_le32_round_trip;
use crate::wire::spec_enc_connection;
use crate::wire::spec_enc_nullstr;
use crate::wire::spec_le16;
use crate::wire::spec_le32;

verus! {

/// A subrange equal to a concatenation splits into subranges equal to
/// the parts.
pub proof fn lemma_subrange_split(s: Seq<u8>, i: int, a: Seq<u8>, b: Seq<u8>)
    requires
        0 <= i,
        i + a.len() + b.len() <= s.len(),
        s.subrange(i, i + a.len() + b.len()) == a + b,
    ensures
        s.subrange(i, i + a.len() as int) == a,
        s.subrange(i + a.len() as int, i + a.len() + b.len()) == b,
{
    assert forall|k: int| 0 <= k < a.len() implies s.subrange(i, i + a.len() as int)[k] == a[k]
        by {
        assert(s.subrange(i, i + a.len() as int)[k] == s[i + k]);
        assert(s.subrange(i, i + a.len() + b.len())[k] == s[i + k]);
        assert(s.subrange(i, i + a.len() + b.len())[k] == (a + b)[k]);
        assert((a + b)[k] == a[k]);
    }
    assert(s.subrange(i, i + a.len() as int) =~= a);
    assert forall|k: int|
        0 <= k < b.len() implies s.subrange(i + a.len() as int, i + a.len() + b.len())[k] == b[k]
        by {
        assert(s.subrange(i + a.len() as int, i + a.len() + b.len())[k] == s[i + a.len() + k]);
        assert(s.subrange(i, i + a.len() + b.len())[a.len() + k] == s[i + a.len() + k]);
        assert(s.subrange(i, i + a.len() + b.len())[a.len() + k] == (a + b)[a.len() + k]);
        assert((a + b)[a.len() + k] == b[k]);
    }
    assert(s.subrange(i + a.len() as int, i + a.len() + b.len()) =~= b);
}

pub proof fn lemma_parse_le16(s: Seq<u8>, i: int, v: u16)
    requires
        0 <= i,
        i + 2 <= s.len(),
        s.subrange(i, i + 2) == spec_le16(v),
    ensures
        parse_u16(s, i) == Some((v, i + 2)),
{
    assert(s[i] == s.subrange(i, i + 2)[0]);
    assert(s[i + 1] == s.subrange(i, i + 2)[1]);
    lemma_le16_round_trip(v);
}

pub proof fn lemma_parse_le32(s: Seq<u8>, i: int, v: u32)
    requires
        0 <= i,
        i + 4 <= s.len(),
        s.subrange(i, i + 4) == spec_le32(v),
    ensures
        parse_u32(s, i) == Some((v, i + 4)),
{
    assert(s[i] == s.subrange(i, i + 4)[0]);
    assert(s[i + 1] == s.subrange(i, i + 4)[1]);
    assert(s[i + 2] == s.subrange(i, i + 4)[2]);
    assert(s[i + 3] == s.subrange(i, i + 4)[3]);
    lemma_le32_round_trip(v);
}

pub proof fn lemma_parse_nullstr_enc(s: Seq<u8>, i: int, t: Seq<u8>)
    requires
        spec_text_wf(t),
        0 <= i,
        i + t.len() + 1 <= s.len(),
        s.subrange(i, i + t.len() + 1) == spec_enc_nullstr(t),
    ensures
        parse_nullstr(s, i) == Some((t, i + t.len() + 1)),
    decreases t.len(),
{
    if t.len() == 0 {
        assert(s[i] == s.subrange(i, i + 1)[0]);
        assert(s[i] == 0);
        assert(parse_nullstr(s, i) == Some((Seq::<u8>::empty(), i + 1)));
        assert(Seq::<u8>::empty() =~= t);
    } else {
        assert(s[i] == s.subrange(i, i + t.len() + 1)[0]);
        assert(s[i] == t[0]);
        assert(t[0] != 0);
        let t2 = t.drop_first();
        assert forall|k: int|
            0 <= k < t2.len() + 1 implies s.subrange(i + 1, i + 1 + t2.len() + 1)[k]
            == spec_enc_nullstr(t2)[k] by {
            assert(s.subrange(i, i + t.len() + 1)[k + 1] == spec_enc_nullstr(t)[k + 1]);
        }
        assert(s.subrange(i + 1, i + 1 + t2.len() + 1) =~= spec_enc_nullstr(t2));
        assert forall|k: int| 0 <= k < t2.len() implies t2[k] != 0 by {
            assert(t[k + 1] != 0);
        }
        lemma_parse_nullstr_enc(s, i + 1, t2);
        assert(seq![t[0]] + t2 =~= t);
    }
}

/// The connection list round trip.
pub proof fn lemma_parse_enc_connections(s: Seq<u8>, i: int, cs: Seq<LOConnection>)
    requires
        0 <= i,
        i + spec_enc_connections(cs).len() <= s.len(),
        s.subrange(i, i + spec_enc_connections(cs).len() as int) == spec_enc_connections(cs),
    ensures
        parse_connections(s, i, cs.len()) == Some((cs, i + spec_enc_connections(cs).len() as int)),
    decreases cs.len(),
{
    let g = |c: LOConnection| spec_enc_connection(c);
    if cs.len() == 0 {
        assert(Seq::<LOConnection>::empty() =~= cs);
    } else {
        let rest = cs.drop_first();
        assert(spec_enc_connections(cs) == g(cs[0]) + enc_list(rest, g));
        lemma_subrange_split(s, i, spec_enc_connection(cs[0]), spec_enc_connections(rest));
        lemma_parse_enc_connection(s, i, cs[0]);
        lemma_parse_enc_connections(s, i + 4, rest);
        assert(seq![cs[0]] + rest =~= cs);
    }
}

pub proof fn lemma_parse_enc_connection(s: Seq<u8>, i: int, c: LOConnection)
    requires
        0 <= i,
        i + spec_enc_connection(c).len() <= s.len(),
        s.subrange(i, i + spec_enc_connection(c).len() as int) == spec_enc_connection(c),
    ensures
        parse_connection(s, i) == Some((c, i + spec_enc_connection(c).len() as int)),
{
    lemma_subrange_split(s, i, spec_le16(c.x_position), spec_le16(c.y_position));
    lemma_parse_le16(s, i, c.x_position);
    lemma_parse_le16(s, i + 2, c.y_position);
}

pub proof fn lemma_parse_enc_roominfo(s: Seq<u8>, i: int, ri: LORoomInfo)
    requires
        0 <= i,
        i + spec_enc_roominfo(ri).len() <= s.len(),
        s.subrange(i, i + spec_enc_roominfo(ri).len() as int) == spec_enc_roominfo(ri),
    ensures
        parse_roominfo(s, i) == Some((ri, i + spec_enc_roominfo(ri).len() as int)),
{
    let p1 = spec_le32(ri.id);
    let p2 = p1 + spec_le16(ri.x_position as u16);
    let p3 = p2 + spec_le16(ri.y_position as u16);
    let p4 = p3 + spec_le16(ri.width);
    let p5 = p4 + spec_le16(ri.height);
    let p6 = p5 + spec_le16(ri.z_position as u16);
    lemma_subrange_split(s, i, p6, spec_le16(0));
    lemma_subrange_split(s, i, p5, spec_le16(ri.z_position as u16));
    lemma_subrange_split(s, i, p4, spec_le16(ri.height));
    lemma_subrange_split(s, i, p3, spec_le16(ri.width));
    lemma_subrange_split(s, i, p2, spec_le16(ri.y_position as u16));
    lemma_subrange_split(s, i, p1, spec_le16(ri.x_position as u16));
    lemma_parse_le32(s, i, ri.id);
    lemma_parse_le16(s, i + 4, ri.x_position as u16);
    lemma_parse_le16(s, i + 6, ri.y_position as u16);
    lemma_parse_le16(s, i + 8, ri.width);
    lemma_parse_le16(s, i + 10, ri.height);
    lemma_parse_le16(s, i + 12, ri.z_position as u16);
    let xv = ri.x_position;
    let yv = ri.y_position;
    let zv = ri.z_position;
    assert(xv as u16 as i16 == xv) by (bit_vector);
    assert(yv as u16 as i16 == yv) by (bit_vector);
    assert(zv as u16 as i16 == zv) by (bit_vector);
}

pub proof fn lemma_parse_enc_stack_tile(s: Seq<u8>, i: int, t: LOStackTile)
    requires
        match t {
            LOStackTile::Custom { id } => spec_stack_tile_from_tag(id) is None && id != 0x0E,
            _ => true,
        },
        0 <= i,
        i + spec_enc_stack_tile(t).len() <= s.len(),
        s.subrange(i, i + spec_enc_stack_tile(t).len() as int) == spec_enc_stack_tile(t),
    ensures
        parse_stack_tile(s, i) == Some((t, i + spec_enc_stack_tile(t).len() as int)),
{
    assert((0x0Eu8 as u16) | ((0x00u8 as u16) << 8) == 0x0E) by (bit_vector);
    if t is PrimeKey {
        assert(s[i] == s.subrange(i, i + 6)[0]);
        assert(s[i + 1] == s.subrange(i, i + 6)[1]);
        assert(s[i] == 0x0E && s[i + 1] == 0x00);
        assert(parse_u16(s, i) == Some((0x0E as u16, i + 2)));
        assert forall|k: int| 0 <= k < 4 implies (#[trigger] s.subrange(i + 2, i + 6)[k])
            == 0u8 by {
            assert(s.subrange(i + 2, i + 6)[k] == s[i + 2 + k]);
            assert(s[i + 2 + k] == s.subrange(i, i + 6)[k + 2]);
        }
        assert(s.subrange(i + 2, i + 6) =~= seq![0u8, 0u8, 0u8, 0u8]);
    } else {
        let tag = t.spec_tag();
        lemma_parse_le16(s, i, tag);
        match t {
            LOStackTile::Custom { id } => {
                assert(tag != 0x0E);
            },
            _ => {
                lemma_stack_tag_round_trip(t);
                assert(tag != 0x0E);
            },
        }
    }
}

pub proof fn lemma_parse_enc_stack_element(s: Seq<u8>, i: int, e: StackElementV)
    requires
        wf_stack_element_v(e),
        0 <= i,
        i + spec_enc_stack_element(e).len() <= s.len(),
        s.subrange(i, i + spec_enc_stack_element(e).len() as int) == spec_enc_stack_element(e),
    ensures
        parse_stack_element(s, i) == Some((e, i + spec_enc_stack_element(e).len() as int)),
{
    let pt = spec_enc_stack_tile(e.tile);
    let pd = spec_le16(e.direction.spec_code());
    if e.tile is ToggleSwitch {
        let pc = spec_le32(e.connections.len() as u32) + spec_enc_connections(e.connections);
        assert(spec_enc_stack_element(e) == pt + pd + pc);
        lemma_subrange_split(s, i, pt + pd, pc);
        lemma_subrange_split(s, i, pt, pd);
        lemma_parse_enc_stack_tile(s, i, e.tile);
        let j = i + pt.len() as int;
        lemma_parse_le16(s, j, e.direction.spec_code());
        let k = j + 2;
        lemma_subrange_split(s, k, spec_le32(e.connections.len() as u32), spec_enc_connections(
            e.connections,
        ));
        lemma_parse_le32(s, k, e.connections.len() as u32);
        let m = k + 4;
        lemma_parse_enc_connections(s, m, e.connections);
    } else {
        assert(spec_enc_stack_element(e) =~= pt + pd);
        lemma_subrange_split(s, i, pt, pd);
        lemma_parse_enc_stack_tile(s, i, e.tile);
        let j = i + pt.len() as int;
        lemma_parse_le16(s, j, e.direction.spec_code());
        assert(e.connections =~= Seq::<LOConnection>::empty());
    }
}

/// The stack element list round trip.
pub proof fn lemma_parse_enc_stack_elements(s: Seq<u8>, i: int, es: Seq<StackElementV>)
    requires
        forall|k: int| 0 <= k < es.len() ==> wf_stack_element_v(#[trigger] es[k]),
        0 <= i,
        i + spec_enc_stack_elements(es).len() <= s.len(),
        s.subrange(i, i + spec_enc_stack_elements(es).len() as int) == spec_enc_stack_elements(
            es,
        ),
    ensures
        parse_stack_elements(s, i, es.len()) == Some(
            (es, i + spec_enc_stack_elements(es).len() as int),
        ),
    decreases es.len(),
{
    let g = |e: StackElementV| spec_enc_stack_element(e);
    if es.len() == 0 {
        assert(Seq::<StackElementV>::empty() =~= es);
    } else {
        let rest = es.drop_first();
        assert(spec_enc_stack_elements(es) == g(es[0]) + enc_list(rest, g));
        lemma_subrange_split(s, i, spec_enc_stack_element(es[0]), spec_enc_stack_elements(rest));
        lemma_parse_enc_stack_element(s, i, es[0]);
        assert forall|k: int| 0 <= k < rest.len() implies wf_stack_element_v(#[trigger] rest[k])
            by {
            assert(rest[k] == es[k + 1]);
        }
        lemma_parse_enc_stack_elements(s, i + spec_enc_stack_element(es[0]).len() as int, rest);
        assert(seq![es[0]] + rest =~= es);
    }
}

/// The tile round trip: a well-formed tile view parses back from its own
/// encoding.
pub proof fn lemma_parse_enc_tile(s: Seq<u8>, i: int, t: TileV)
    requires
        wf_tile_v(t),
        0 <= i,
        i + spec_enc_tile(t).len() <= s.len(),
        s.subrange(i, i + spec_enc_tile(t).len() as int) == spec_enc_tile(t),
    ensures
        parse_tile(s, i) == Some((t, i + spec_enc_tile(t).len() as int)),
{
    let pp = spec_enc_tile_payload(t.payload);
    lemma_subrange_split(s, i, spec_le32(t.tag), pp);
    lemma_parse_le32(s, i, t.tag);
    let j = i + 4;
    if is_conns_tag(t.tag) {
        let cs = t.payload->Conns_0;
        lemma_subrange_split(s, j, spec_le32(cs.len() as u32), spec_enc_connections(cs));
        lemma_parse_le32(s, j, cs.len() as u32);
        lemma_parse_enc_connections(s, j + 4, cs);
    } else if is_dir_tag(t.tag) {
        let d = t.payload->Dir_0;
        lemma_parse_le32(s, j, d.spec_code());
        lemma_direction_code_round_trip(d);
    } else if t.tag == 0x37 {
        let tx = t.payload->Text_0;
        lemma_parse_nullstr_enc(s, j, tx);
    } else if t.tag == 0x62 {
        let es = t.payload->StackEls_0;
        lemma_subrange_split(s, j, spec_le32(es.len() as u32), spec_enc_stack_elements(es));
        lemma_parse_le32(s, j, es.len() as u32);
        lemma_parse_enc_stack_elements(s, j + 4, es);
    } else {
        assert(t.payload is Plain);
    }
}

/// The tile list round trip.
pub proof fn lemma_parse_enc_tiles(s: Seq<u8>, i: int, ts: Seq<TileV>)
    requires
        forall|k: int| 0 <= k < ts.len() ==> wf_tile_v(#[trigger] ts[k]),
        0 <= i,
        i + spec_enc_tiles(ts).len() <= s.len(),
        s.subrange(i, i + spec_enc_tiles(ts).len() as int) == spec_enc_tiles(ts),
    ensures
        parse_tiles(s, i, ts.len()) == Some((ts, i + spec_enc_tiles(ts).len() as int)),
    decreases ts.len(),
{
    let g = |t: TileV| spec_enc_tile(t);
    if ts.len() == 0 {
        assert(Seq::<TileV>::empty() =~= ts);
    } else {
        let rest = ts.drop_first();
        assert(spec_enc_tiles(ts) == g(ts[0]) + enc_list(rest, g));
        lemma_subrange_split(s, i, spec_enc_tile(ts[0]), spec_enc_tiles(rest));
        lemma_parse_enc_tile(s, i, ts[0]);
        assert forall|k: int| 0 <= k < rest.len() implies wf_tile_v(#[trigger] rest[k]) by {
            assert(rest[k] == ts[k + 1]);
        }
        lemma_parse_enc_tiles(s, i + spec_enc_tile(ts[0]).len() as int, rest);
        assert(seq![ts[0]] + rest =~= ts);
    }
}

/// The room-info list round trip.
pub proof fn lemma_parse_enc_roominfos(s: Seq<u8>, i: int, ris: Seq<LORoomInfo>)
    requires
        0 <= i,
        i + spec_enc_roominfos(ris).len() <= s.len(),
        s.subrange(i, i + spec_enc_roominfos(ris).len() as int) == spec_enc_roominfos(ris),
    ensures
        parse_roominfos(s, i, ris.len()) == Some(
            (ris, i + spec_enc_roominfos(ris).len() as int),
        ),
    decreases ris.len(),
{
    let g = |ri: LORoomInfo| spec_enc_roominfo(ri);
    if ris.len() == 0 {
        assert(Seq::<LORoomInfo>::empty() =~= ris);
    } else {
        let rest = ris.drop_first();
        assert(spec_enc_roominfos(ris) == g(ris[0]) + enc_list(rest, g));
        lemma_subrange_split(s, i, spec_enc_roominfo(ris[0]), spec_enc_roominfos(rest));
        lemma_parse_enc_roominfo(s, i, ris[0]);
        lemma_parse_enc_roominfos(s, i + spec_enc_roominfo(ris[0]).len() as int, rest);
        assert(seq![ris[0]] + rest =~= ris);
    }
}

/// The layer round trip.
pub proof fn lemma_parse_enc_layer(s: Seq<u8>, i: int, l: LayerV)
    requires
        wf_layer_v(l),
        0 <= i,
        i + spec_enc_layer(l).len() <= s.len(),
        s.subrange(i, i + spec_enc_layer(l).len() as int) == spec_enc_layer(l),
    ensures
        parse_layer(s, i) == Some((l, i + spec_enc_layer(l).len() as int)),
{
    let count = (l.width * l.height) as u32;
    let p1 = LAYER_PREFIX@;
    let p2 = p1 + spec_le16(l.width);
    let p3 = p2 + spec_le16(l.height);
    let p4 = p3 + LAYER_INFIX@;
    let p5 = p4 + spec_le32(count);
    lemma_subrange_split(s, i, p5, spec_enc_tiles(l.tiles));
    lemma_subrange_split(s, i, p4, spec_le32(count));
    lemma_subrange_split(s, i, p3, LAYER_INFIX@);
    lemma_subrange_split(s, i, p2, spec_le16(l.height));
    lemma_subrange_split(s, i, p1, spec_le16(l.width));
    lemma_parse_le16(s, i + 5, l.width);
    lemma_parse_le16(s, i + 7, l.height);
    lemma_parse_le32(s, i + 15, count);
    assert((l.width as int) * (l.height as int) < 0x100000000int) by (nonlinear_arith)
        requires
            l.width <= 0xFFFFu16,
            l.height <= 0xFFFFu16,
    ;
    assert(count as nat == l.tiles.len());
    lemma_parse_enc_tiles(s, i + 19, l.tiles);
    assert((LayerV { width: l.width, height: l.height, tiles: l.tiles }) =~= l);
}

/// The layer list round trip.
pub proof fn lemma_parse_enc_layers(s: Seq<u8>, i: int, ls: Seq<LayerV>)
    requires
        forall|k: int| 0 <= k < ls.len() ==> wf_layer_v(#[trigger] ls[k]),
        0 <= i,
        i + spec_enc_layers(ls).len() <= s.len(),
        s.subrange(i, i + spec_enc_layers(ls).len() as int) == spec_enc_layers(ls),
    ensures
        parse_layers(s, i, ls.len()) == Some((ls, i + spec_enc_layers(ls).len() as int)),
    decreases ls.len(),
{
    let g = |l: LayerV| spec_enc_layer(l);
    if ls.len() == 0 {
        assert(Seq::<LayerV>::empty() =~= ls);
    } else {
        let rest = ls.drop_first();
        assert(spec_enc_layers(ls) == g(ls[0]) + enc_list(rest, g));
        lemma_subrange_split(s, i, spec_enc_layer(ls[0]), spec_enc_layers(rest));
        lemma_parse_enc_layer(s, i, ls[0]);
        assert forall|k: int| 0 <= k < rest.len() implies wf_layer_v(#[trigger] rest[k]) by {
            assert(rest[k] == ls[k + 1]);
        }
        lemma_parse_enc_layers(s, i + spec_enc_layer(ls[0]).len() as int, rest);
        assert(seq![ls[0]] + rest =~= ls);
    }
}

/// The world-descriptor content round trip.
#[verifier::rlimit(100)]
#[verifier::spinoff_prover]
proof fn lemma_parse_enc_zone_map(s: Seq<u8>, i: int, c: ContentV)
    requires
        c is ZoneMapV,
        wf_content_v(c),
        0 <= i,
        i + spec_enc_content(c).len() <= s.len(),
        s.subrange(i, i + spec_enc_content(c).len() as int) == spec_enc_content(c),
    ensures
        parse_exact(s, i, ZONE_MAP_MAGIC@) == Some(i + 14),
        parse_zone_map_body(s, i + 14) == Some((c, i + spec_enc_content(c).len() as int)),
{
    match c {
        ContentV::ZoneMapV {
            name,
            room_info,
            description,
            author,
            guid_world,
            guid_author1,
            guid_author2,
            world_revision,
            unknown4,
        } => {
            let rc = room_info.len() as u32;
            let p1 = ZONE_MAP_MAGIC@;
            let p2 = p1 + spec_le16(0);
            let p3 = p2 + spec_le32(1);
            let p4 = p3 + spec_enc_nullstr(name);
            let p5 = p4 + TILE_ZONE_MAP_UNKNOWN2@;
            let p6 = p5 + spec_le32(rc);
            let p7 = p6 + spec_enc_roominfos(room_info);
            let p8 = p7 + spec_le32(1);
            let p9 = p8 + spec_enc_nullstr(description);
            let p10 = p9 + spec_enc_nullstr(author);
            let p11 = p10 + spec_le32(guid_world);
            let p12 = p11 + seq![0u8, 0u8, 0u8, 0u8];
            let p13 = p12 + spec_le32(guid_author1);
            let p14 = p13 + seq![0u8, 0u8, 0u8, 0u8];
            let p15 = p14 + spec_le32(guid_author2);
            let p16 = p15 + spec_le32(world_revision);
            let p17 = p16 + spec_le32(rc);
            lemma_subrange_split(s, i, p17, spec_le32(unknown4));
            lemma_subrange_split(s, i, p16, spec_le32(rc));
            lemma_subrange_split(s, i, p15, spec_le32(world_revision));
            lemma_subrange_split(s, i, p14, spec_le32(guid_author2));
            lemma_subrange_split(s, i, p13, seq![0u8, 0u8, 0u8, 0u8]);
            lemma_subrange_split(s, i, p12, spec_le32(guid_author1));
            lemma_subrange_split(s, i, p11, seq![0u8, 0u8, 0u8, 0u8]);
            lemma_subrange_split(s, i, p10, spec_le32(guid_world));
            lemma_subrange_split(s, i, p9, spec_enc_nullstr(author));
            lemma_subrange_split(s, i, p8, spec_enc_nullstr(description));
            lemma_subrange_split(s, i, p7, spec_le32(1));
            lemma_subrange_split(s, i, p6, spec_enc_roominfos(room_info));
            lemma_subrange_split(s, i, p5, spec_le32(rc));
            lemma_subrange_split(s, i, p4, TILE_ZONE_MAP_UNKNOWN2@);
            lemma_subrange_split(s, i, p3, spec_enc_nullstr(name));
            lemma_subrange_split(s, i, p2, spec_le32(1));
            lemma_subrange_split(s, i, p1, spec_le16(0));
            let j1 = i + p1.len() as int;
            let j5 = i + p5.len() as int;
            let j6 = i + p6.len() as int;
            let j7 = i + p7.len() as int;
            let j8 = i + p8.len() as int;
            let j9 = i + p9.len() as int;
            let j10 = i + p10.len() as int;
            lemma_parse_nullstr_enc(s, j1 + 6, name);
            lemma_parse_le32(s, j5, rc);
            assert(rc as nat == room_info.len());
            lemma_parse_enc_roominfos(s, j6, room_info);
            lemma_parse_nullstr_enc(s, j8, description);
            lemma_parse_nullstr_enc(s, j9, author);
            lemma_parse_le32(s, j10, guid_world);
            lemma_parse_le32(s, i + p12.len() as int, guid_author1);
            lemma_parse_le32(s, i + p14.len() as int, guid_author2);
            lemma_parse_le32(s, i + p15.len() as int, world_revision);
            lemma_parse_le32(s, i + p17.len() as int, unknown4);
        },
        _ => {},
    }
}

/// The room-data content round trip, with the fact that the descriptor's
/// longer magic cannot match at the same position.
#[verifier::rlimit(100)]
#[verifier::spinoff_prover]
proof fn lemma_parse_enc_map_edit(s: Seq<u8>, i: int, c: ContentV)
    requires
        c is MapEditV,
        wf_content_v(c),
        0 <= i,
        i + spec_enc_content(c).len() <= s.len(),
        s.subrange(i, i + spec_enc_content(c).len() as int) == spec_enc_content(c),
    ensures
        parse_exact(s, i, ZONE_MAP_MAGIC@) is None,
        parse_exact(s, i, MAP_EDIT_MAGIC@) == Some(i + 13),
        parse_map_edit_body(s, i + 13) == Some((c, i + spec_enc_content(c).len() as int)),
{
    match c {
        ContentV::MapEditV { id, name, width, height, layers, music, revision } => {
            let lc = layers.len() as u32;
            let mcode = music.spec_code() as u32;
            let p1 = MAP_EDIT_MAGIC@;
            let p2 = p1 + spec_le16(0);
            let p3 = p2 + spec_le32(id);
            let p4 = p3 + spec_enc_nullstr(name);
            let p5 = p4 + spec_le16(width);
            let p6 = p5 + spec_le16(height);
            let p7 = p6 + TILE_MAP_EDIT_UNKNOWN3@;
            let p8 = p7 + spec_le32(lc);
            let p9 = p8 + spec_enc_layers(layers);
            let p10 = p9 + spec_le32(mcode);
            lemma_subrange_split(s, i, p10, spec_le32(revision));
            lemma_subrange_split(s, i, p9, spec_le32(mcode));
            lemma_subrange_split(s, i, p8, spec_enc_layers(layers));
            lemma_subrange_split(s, i, p7, spec_le32(lc));
            lemma_subrange_split(s, i, p6, TILE_MAP_EDIT_UNKNOWN3@);
            lemma_subrange_split(s, i, p5, spec_le16(height));
            lemma_subrange_split(s, i, p4, spec_le16(width));
            lemma_subrange_split(s, i, p3, spec_enc_nullstr(name));
            lemma_subrange_split(s, i, p2, spec_le32(id));
            lemma_subrange_split(s, i, p1, spec_le16(0));
            // The two record names differ at their fifth byte, so the
            // descriptor magic never matches a room record.
            if i + 14 <= s.len() && s.subrange(i, i + 14) == ZONE_MAP_MAGIC@ {
                assert(s[i + 4] == s.subrange(i, i + 14)[4]);
                assert(s[i + 4] == s.subrange(i, i + 13)[4]);
                assert(false);
            }
            let j2 = i + p2.len() as int;
            let j3 = i + p3.len() as int;
            let j7 = i + p7.len() as int;
            let j8 = i + p8.len() as int;
            let j9 = i + p9.len() as int;
            lemma_parse_le32(s, j2, id);
            lemma_parse_nullstr_enc(s, j3, name);
            lemma_parse_le16(s, i + p4.len() as int, width);
            lemma_parse_le16(s, i + p5.len() as int, height);
            lemma_parse_le32(s, j7, lc);
            assert(lc as nat == layers.len());
            lemma_parse_enc_layers(s, j8, layers);
            lemma_parse_le32(s, j9, mcode);
            let mc = music.spec_code();
            assert(mc as u32 as i32 == mc) by (bit_vector);
            assert(LOMusic::spec_from_code(mc) == Some(music));
            lemma_parse_le32(s, i + p10.len() as int, revision);
        },
        _ => {},
    }
}

/// The stem content round trip.
pub proof fn lemma_parse_enc_content(s: Seq<u8>, i: int, c: ContentV)
    requires
        wf_content_v(c),
        0 <= i,
        i + spec_enc_content(c).len() <= s.len(),
        s.subrange(i, i + spec_enc_content(c).len() as int) == spec_enc_content(c),
    ensures
        parse_content(s, i) == Some((c, i + spec_enc_content(c).len() as int)),
{
    match c {
        ContentV::ZoneMapV { .. } => {
            lemma_parse_enc_zone_map(s, i, c);
        },
        ContentV::MapEditV { .. } => {
            lemma_parse_enc_map_edit(s, i, c);
        },
    }
}

/// The stem round trip.
pub proof fn lemma_parse_enc_stem(s: Seq<u8>, i: int, st: StemV)
    requires
        wf_stem_v(st),
        0 <= i,
        i + spec_enc_stem(st).len() <= s.len(),
        s.subrange(i, i + spec_enc_stem(st).len() as int) == spec_enc_stem(st),
    ensures
        parse_stem(s, i) == Some((st, i + spec_enc_stem(st).len() as int)),
        spec_enc_stem(st).len() >= 4,
{
    lemma_subrange_split(s, i, STEM_MAGIC@, spec_enc_content(st.content));
    lemma_parse_enc_content(s, i + 4, st.content);
    assert((StemV { byte_offset: 0, byte_length: 0, content: st.content }) =~= st);
}

/// The stem list round trip, up to the end of the input.
#[verifier::rlimit(100)]
#[verifier::spinoff_prover]
pub proof fn lemma_parse_enc_stems(s: Seq<u8>, i: int, sts: Seq<StemV>)
    requires
        forall|k: int| 0 <= k < sts.len() ==> wf_stem_v(#[trigger] sts[k]),
        0 <= i,
        i + spec_enc_stems(sts).len() == s.len(),
        s.subrange(i, s.len() as int) == spec_enc_stems(sts),
    ensures
        parse_stems_to_end(s, i) == Some(sts),
    decreases sts.len(),
{
    let g = |st: StemV| spec_enc_stem(st);
    if sts.len() == 0 {
        assert(i == s.len());
        assert(Seq::<StemV>::empty() =~= sts);
    } else {
        let rest = sts.drop_first();
        assert(spec_enc_stems(sts) == g(sts[0]) + enc_list(rest, g));
        lemma_subrange_split(s, i, spec_enc_stem(sts[0]), spec_enc_stems(rest));
        lemma_parse_enc_stem(s, i, sts[0]);
        let j = i + spec_enc_stem(sts[0]).len() as int;
        assert(i < j <= s.len());
        assert forall|k: int| 0 <= k < rest.len() implies wf_stem_v(#[trigger] rest[k]) by {
            assert(rest[k] == sts[k + 1]);
        }
        assert(s.subrange(j, s.len() as int) == spec_enc_stems(rest));
        lemma_parse_enc_stems(s, j, rest);
        assert(i != s.len());
        assert(seq![sts[0]] + rest =~= sts);
    }
}

/// The zone-header room entry round trip.
pub proof fn lemma_parse_enc_room(s: Seq<u8>, i: int, r: LORoom)
    requires
        0 <= i,
        i + spec_enc_room(r).len() <= s.len(),
        s.subrange(i, i + spec_enc_room(r).len() as int) == spec_enc_room(r),
    ensures
        parse_room(s, i) == Some((r, i + spec_enc_room(r).len() as int)),
{
    let p1 = spec_le32(1002);
    let p2 = p1 + spec_le32(r.stem_offset);
    let p3 = p2 + spec_le32(r.stem_length);
    let p4 = p3 + seq![4u8];
    lemma_subrange_split(s, i, p4, ROOM_LABEL@);
    lemma_subrange_split(s, i, p3, seq![4u8]);
    lemma_subrange_split(s, i, p2, spec_le32(r.stem_length));
    lemma_subrange_split(s, i, p1, spec_le32(r.stem_offset));
    lemma_parse_le32(s, i + 4, r.stem_offset);
    lemma_parse_le32(s, i + 8, r.stem_length);
    assert(s[i + 12] == s.subrange(i + 12, i + 13)[0]);
    assert(s[i + 12] == 4);
}

/// The zone-header room list round trip.
pub proof fn lemma_parse_enc_rooms(s: Seq<u8>, i: int, rs: Seq<LORoom>)
    requires
        0 <= i,
        i + spec_enc_rooms(rs).len() <= s.len(),
        s.subrange(i, i + spec_enc_rooms(rs).len() as int) == spec_enc_rooms(rs),
    ensures
        parse_rooms(s, i, rs.len()) == Some((rs, i + spec_enc_rooms(rs).len() as int)),
    decreases rs.len(),
{
    let g = |r: LORoom| spec_enc_room(r);
    if rs.len() == 0 {
        assert(Seq::<LORoom>::empty() =~= rs);
    } else {
        let rest = rs.drop_first();
        assert(spec_enc_rooms(rs) == g(rs[0]) + enc_list(rest, g));
        lemma_subrange_split(s, i, spec_enc_room(rs[0]), spec_enc_rooms(rest));
        lemma_parse_enc_room(s, i, rs[0]);
        lemma_parse_enc_rooms(s, i + spec_enc_room(rs[0]).len() as int, rest);
        assert(seq![rs[0]] + rest =~= rs);
    }
}

/// The zone header round trip.
pub proof fn lemma_parse_enc_zone(s: Seq<u8>, i: int, z: ZoneV)
    requires
        0 <= i,
        i + spec_enc_zone(z).len() <= s.len(),
        s.subrange(i, i + spec_enc_zone(z).len() as int) == spec_enc_zone(z),
    ensures
        parse_zone(s, i, z.rooms.len()) == Some((z, i + spec_enc_zone(z).len() as int)),
{
    let p1 = spec_le32(1007);
    let p2 = p1 + spec_le32(z.stem_offset);
    let p3 = p2 + spec_le32(z.stem_length);
    let p4 = p3 + seq![4u8];
    let p5 = p4 + ZONE_LABEL@;
    lemma_subrange_split(s, i, p5, spec_enc_rooms(z.rooms));
    lemma_subrange_split(s, i, p4, ZONE_LABEL@);
    lemma_subrange_split(s, i, p3, seq![4u8]);
    lemma_subrange_split(s, i, p2, spec_le32(z.stem_length));
    lemma_subrange_split(s, i, p1, spec_le32(z.stem_offset));
    lemma_parse_le32(s, i + 4, z.stem_offset);
    lemma_parse_le32(s, i + 8, z.stem_length);
    assert(s[i + 12] == s.subrange(i + 12, i + 13)[0]);
    assert(s[i + 12] == 4);
    lemma_parse_enc_rooms(s, i + 17, z.rooms);
    assert((ZoneV { stem_offset: z.stem_offset, stem_length: z.stem_length, rooms: z.rooms })
        =~= z);
}

/// The round-trip theorem: a well-formed document's encoding parses back
/// to exactly that document, field for field — the derived offset and
/// length fields included, since they are plain fields of the document
/// being encoded.
#[verifier::rlimit(100)]
#[verifier::spinoff_prover]
pub proof fn lemma_round_trip(w: WorldV)
    requires
        wf_world_v(w),
    ensures
        parse_world(spec_enc_world(w)) == Some(w),
{
    let s = spec_enc_world(w);
    let raw = (w.room_count + 1) as u32;
    let p1 = WORLD_MAGIC@;
    let p2 = p1 + spec_le32(0);
    let p3 = p2 + spec_le32(w.zone_stem_offset);
    let p4 = p3 + spec_le32(raw);
    let p5 = p4 + spec_enc_zone(w.zone);
    assert(s.subrange(0, s.len() as int) =~= s);
    lemma_subrange_split(s, 0, p5, spec_enc_stems(w.stems));
    lemma_subrange_split(s, 0, p4, spec_enc_zone(w.zone));
    lemma_subrange_split(s, 0, p3, spec_le32(raw));
    lemma_subrange_split(s, 0, p2, spec_le32(w.zone_stem_offset));
    lemma_subrange_split(s, 0, p1, spec_le32(0));
    lemma_parse_le32(s, 8, w.zone_stem_offset);
    lemma_parse_le32(s, 12, raw);
    assert(raw != 0);
    lemma_parse_enc_zone(s, 16, w.zone);
    let j5 = 16 + spec_enc_zone(w.zone).len() as int;
    assert forall|k: int| 0 <= k < w.stems.len() implies wf_stem_v(#[trigger] w.stems[k]) by {}
    assert(s.subrange(j5, s.len() as int) == spec_enc_stems(w.stems));
    lemma_parse_enc_stems(s, j5, w.stems);
    assert((raw - 1) as u32 == w.room_count);
    assert((WorldV {
        zone_stem_offset: w.zone_stem_offset,
        room_count: w.room_count,
        zone: w.zone,
        stems: w.stems,
    }) =~= w);
}

/// Patching fills only fixed-width offset and length fields, so a
/// well-formed document stays well-formed; with the theorem above,
/// decoding an encode's output therefore yields exactly the patched
/// document.
pub proof fn lemma_patched_wf(w: WorldV)
    requires
        wf_world_v(w),
    ensures
        wf_world_v(crate::encode::patched_v(w)),
{
    assert(crate::encode::patched_v(w).zone.rooms.len() == w.zone.rooms.len());
}

} // verus!
