//! The byte-level parser of the file format, as total specification
//! functions over byte sequences. Each function consumes from a position
//! and yields the parsed value with the next position, or nothing where
//! the bytes do not form the format.
//!
//! The executable decoder is proved to return exactly what these
//! functions describe: it succeeds on exactly the streams they accept.

use vstd::prelude::*;
use crate::data::LORoom;
use crate::data::LORoomInfo;
use crate::tags::spec_plain_tile_from_tag;
use crate::tags::spec_stack_tile_from_tag;
use crate::tiles::LOConnection;
use crate::tiles::LODirection;
use crate::tiles::LOMusic;
use crate::tiles::LOStackDirection;
use crate::tiles::LOStackTile;
use crate::views::is_conns_tag;
use crate::views::is_dir_tag;
use crate::views::ContentV;
use crate::views::LayerV;
use crate::views::StackElementV;
use crate::views::StemV;
use crate::views::TilePayloadV;
use crate::views::TileV;
use crate::views::WorldV;
use crate::views::ZoneV;
use crate::wire::spec_u16_of;
use crate::wire::spec_u32_of;
use crate::wire::MAP_EDIT_MAGIC;
use crate::wire::STEM_MAGIC;
use crate::wire::TILE_MAP_EDIT_UNKNOWN3;
use crate::wire::TILE_ZONE_MAP_UNKNOWN2;
use crate::wire::WORLD_MAGIC;
use crate::wire::ZONE_MAP_MAGIC;

verus! {

pub open spec fn parse_u8(s: Seq<u8>, i: int) -> Option<(u8, int)> {
    if 0 <= i && i + 1 <= s.len() {
        Some((s[i], i + 1))
    } else {
        None
    }
}

pub open spec fn parse_u16(s: Seq<u8>, i: int) -> Option<(u16, int)> {
    if 0 <= i && i + 2 <= s.len() {
        Some((spec_u16_of(s[i], s[i + 1]), i + 2))
    } else {
        None
    }
}

pub open spec fn parse_u32(s: Seq<u8>, i: int) -> Option<(u32, int)> {
    if 0 <= i && i + 4 <= s.len() {
        Some((spec_u32_of(s[i], s[i + 1], s[i + 2], s[i + 3]), i + 4))
    } else {
        None
    }
}

/// Accepts exactly the given bytes.
pub open spec fn parse_exact(s: Seq<u8>, i: int, pat: Seq<u8>) -> Option<int> {
    if 0 <= i && i + pat.len() <= s.len() && s.subrange(i, i + pat.len() as int) == pat {
        Some(i + pat.len() as int)
    } else {
        None
    }
}

/// Skips bytes whose value the format does not constrain.
pub open spec fn parse_skip(s: Seq<u8>, i: int, n: int) -> Option<int> {
    if 0 <= i && 0 <= n && i + n <= s.len() {
        Some(i + n)
    } else {
        None
    }
}

/// Bytes up to and excluding the next NUL, consuming the NUL too; fails on
/// an unterminated string.
pub open spec fn parse_nullstr(s: Seq<u8>, i: int) -> Option<(Seq<u8>, int)>
    decreases s.len() - i,
{
    if !(0 <= i && i < s.len()) {
        None
    } else if s[i] == 0 {
        Some((Seq::empty(), i + 1))
    } else {
        match parse_nullstr(s, i + 1) {
            Some((t, j)) => Some((seq![s[i]] + t, j)),
            None => None,
        }
    }
}

/// `n` consecutive values of one kind, each read by `f`.
pub open spec fn parse_list<T>(
    s: Seq<u8>,
    i: int,
    n: nat,
    f: spec_fn(Seq<u8>, int) -> Option<(T, int)>,
) -> Option<(Seq<T>, int)>
    decreases n,
{
    if n == 0 {
        Some((Seq::empty(), i))
    } else {
        match f(s, i) {
            Some((v, j)) => match parse_list(s, j, (n - 1) as nat, f) {
                Some((vs, k)) => Some((seq![v] + vs, k)),
                None => None,
            },
            None => None,
        }
    }
}

pub open spec fn parse_connection(s: Seq<u8>, i: int) -> Option<(LOConnection, int)> {
    match parse_u16(s, i) {
        Some((x, j)) => match parse_u16(s, j) {
            Some((y, k)) => Some((LOConnection { x_position: x, y_position: y }, k)),
            None => None,
        },
        None => None,
    }
}

pub open spec fn parse_connections(s: Seq<u8>, i: int, n: nat) -> Option<(
    Seq<LOConnection>,
    int,
)> {
    parse_list(s, i, n, |s2: Seq<u8>, i2: int| parse_connection(s2, i2))
}

/// A stack sub-tile. A tag of `0x0E` names the legacy prime key only when
/// four zero bytes follow; any tag outside the table is kept as `Custom`.
pub open spec fn parse_stack_tile(s: Seq<u8>, i: int) -> Option<(LOStackTile, int)> {
    match parse_u16(s, i) {
        Some((tag, j)) => if tag == 0x0E {
            if j + 4 <= s.len() && s.subrange(j, j + 4) == seq![0u8, 0u8, 0u8, 0u8] {
                Some((LOStackTile::PrimeKey, j + 4))
            } else {
                Some((LOStackTile::Custom { id: tag }, j))
            }
        } else {
            match spec_stack_tile_from_tag(tag) {
                Some(t) => Some((t, j)),
                None => Some((LOStackTile::Custom { id: tag }, j)),
            }
        },
        None => None,
    }
}

pub open spec fn parse_stack_element(s: Seq<u8>, i: int) -> Option<(StackElementV, int)> {
    match parse_stack_tile(s, i) {
        Some((tile, j)) => match parse_u16(s, j) {
            Some((dcode, k)) => match LOStackDirection::spec_from_code(dcode) {
                Some(direction) => if tile is ToggleSwitch {
                    match parse_u32(s, k) {
                        Some((n, m)) => match parse_connections(s, m, n as nat) {
                            Some((cs, e)) => Some(
                                (StackElementV { tile, direction, connections: cs }, e),
                            ),
                            None => None,
                        },
                        None => None,
                    }
                } else {
                    Some(
                        (StackElementV { tile, direction, connections: Seq::empty() }, k),
                    )
                },
                None => None,
            },
            None => None,
        },
        None => None,
    }
}

pub open spec fn parse_stack_elements(s: Seq<u8>, i: int, n: nat) -> Option<(
    Seq<StackElementV>,
    int,
)> {
    parse_list(s, i, n, |s2: Seq<u8>, i2: int| parse_stack_element(s2, i2))
}

/// The payload of a tile once its tag is known; fails on a direction code
/// or tag the taxonomy does not know.
pub open spec fn parse_tile_payload(s: Seq<u8>, i: int, tag: u32) -> Option<(
    TilePayloadV,
    int,
)> {
    if is_conns_tag(tag) {
        match parse_u32(s, i) {
            Some((n, j)) => match parse_connections(s, j, n as nat) {
                Some((cs, k)) => Some((TilePayloadV::Conns(cs), k)),
                None => None,
            },
            None => None,
        }
    } else if is_dir_tag(tag) {
        match parse_u32(s, i) {
            Some((dcode, j)) => match LODirection::spec_from_code(dcode) {
                Some(d) => Some((TilePayloadV::Dir(d), j)),
                None => None,
            },
            None => None,
        }
    } else if tag == 0x37 {
        match parse_nullstr(s, i) {
            Some((text, j)) => Some((TilePayloadV::Text(text), j)),
            None => None,
        }
    } else if tag == 0x62 {
        match parse_u32(s, i) {
            Some((n, j)) => match parse_stack_elements(s, j, n as nat) {
                Some((es, k)) => Some((TilePayloadV::StackEls(es), k)),
                None => None,
            },
            None => None,
        }
    } else {
        match spec_plain_tile_from_tag(tag) {
            Some(_) => Some((TilePayloadV::Plain, i)),
            None => None,
        }
    }
}

pub open spec fn parse_tile(s: Seq<u8>, i: int) -> Option<(TileV, int)> {
    match parse_u32(s, i) {
        Some((tag, j)) => match parse_tile_payload(s, j, tag) {
            Some((p, k)) => Some((TileV { tag, payload: p }, k)),
            None => None,
        },
        None => None,
    }
}

pub open spec fn parse_tiles(s: Seq<u8>, i: int, n: nat) -> Option<(Seq<TileV>, int)> {
    parse_list(s, i, n, |s2: Seq<u8>, i2: int| parse_tile(s2, i2))
}

/// A layer grid. The two fixed blocks around the dimensions are read
/// without being checked, and the tile list is bounded by the count field
/// as stored, not by the dimensions.
pub open spec fn parse_layer(s: Seq<u8>, i: int) -> Option<(LayerV, int)> {
    match parse_skip(s, i, 5) {
        Some(j1) => match parse_u16(s, j1) {
            Some((width, j2)) => match parse_u16(s, j2) {
                Some((height, j3)) => match parse_skip(s, j3, 6) {
                    Some(j4) => match parse_u32(s, j4) {
                        Some((count, j5)) => match parse_tiles(s, j5, count as nat) {
                            Some((tiles, j6)) => Some(
                                (LayerV { width, height, tiles }, j6),
                            ),
                            None => None,
                        },
                        None => None,
                    },
                    None => None,
                },
                None => None,
            },
            None => None,
        },
        None => None,
    }
}

pub open spec fn parse_layers(s: Seq<u8>, i: int, n: nat) -> Option<(Seq<LayerV>, int)> {
    parse_list(s, i, n, |s2: Seq<u8>, i2: int| parse_layer(s2, i2))
}

/// A room-info entry; the trailing 16-bit field is read and dropped.
pub open spec fn parse_roominfo(s: Seq<u8>, i: int) -> Option<(LORoomInfo, int)> {
    match parse_u32(s, i) {
        Some((id, j1)) => match parse_u16(s, j1) {
            Some((x, j2)) => match parse_u16(s, j2) {
                Some((y, j3)) => match parse_u16(s, j3) {
                    Some((width, j4)) => match parse_u16(s, j4) {
                        Some((height, j5)) => match parse_u16(s, j5) {
                            Some((z, j6)) => match parse_skip(s, j6, 2) {
                                Some(j7) => Some(
                                    (
                                        LORoomInfo {
                                            id,
                                            x_position: x as i16,
                                            y_position: y as i16,
                                            width,
                                            height,
                                            z_position: z as i16,
                                        },
                                        j7,
                                    ),
                                ),
                                None => None,
                            },
                            None => None,
                        },
                        None => None,
                    },
                    None => None,
                },
                None => None,
            },
            None => None,
        },
        None => None,
    }
}

pub open spec fn parse_roominfos(s: Seq<u8>, i: int, n: nat) -> Option<(Seq<LORoomInfo>, int)> {
    parse_list(s, i, n, |s2: Seq<u8>, i2: int| parse_roominfo(s2, i2))
}

/// The world-descriptor content, after its selecting magic. Unexplained
/// single fields are read and dropped; the fixed padding block must match
/// byte for byte (a mismatch means an unsupported game revision).
pub open spec fn parse_zone_map_body(s: Seq<u8>, i: int) -> Option<(ContentV, int)> {
    match parse_skip(s, i, 6) {
        Some(j1) => match parse_nullstr(s, j1) {
            Some((name, j2)) => match parse_exact(s, j2, TILE_ZONE_MAP_UNKNOWN2@) {
                Some(j3) => match parse_u32(s, j3) {
                    Some((n, j4)) => match parse_roominfos(s, j4, n as nat) {
                        Some((room_info, j5)) => match parse_skip(s, j5, 4) {
                            Some(j6) => match parse_nullstr(s, j6) {
                                Some((description, j7)) => match parse_nullstr(s, j7) {
                                    Some((author, j8)) => match parse_u32(s, j8) {
                                        Some((guid_world, j9)) => match parse_skip(s, j9, 4) {
                                            Some(j10) => match parse_u32(s, j10) {
                                                Some((guid_author1, j11)) => match parse_skip(
                                                    s,
                                                    j11,
                                                    4,
                                                ) {
                                                    Some(j12) => match parse_u32(s, j12) {
                                                        Some((guid_author2, j13)) => match
                                                            parse_u32(s, j13) {
                                                            Some((world_revision, j14)) => match
                                                                parse_skip(s, j14, 4) {
                                                                Some(j15) => match parse_u32(
                                                                    s,
                                                                    j15,
                                                                ) {
                                                                    Some((unknown4, j16)) => Some(
                                                                        (
                                                                            ContentV::ZoneMapV {
                                                                                name,
                                                                                room_info,
                                                                                description,
                                                                                author,
                                                                                guid_world,
                                                                                guid_author1,
                                                                                guid_author2,
                                                                                world_revision,
                                                                                unknown4,
                                                                            },
                                                                            j16,
                                                                        ),
                                                                    ),
                                                                    None => None,
                                                                },
                                                                None => None,
                                                            },
                                                            None => None,
                                                        },
                                                        None => None,
                                                    },
                                                    None => None,
                                                },
                                                None => None,
                                            },
                                            None => None,
                                        },
                                        None => None,
                                    },
                                    None => None,
                                },
                                None => None,
                            },
                            None => None,
                        },
                        None => None,
                    },
                    None => None,
                },
                None => None,
            },
            None => None,
        },
        None => None,
    }
}

/// The room-data content, after its selecting magic. The music code must
/// name a known selector.
pub open spec fn parse_map_edit_body(s: Seq<u8>, i: int) -> Option<(ContentV, int)> {
    match parse_skip(s, i, 2) {
        Some(j1) => match parse_u32(s, j1) {
            Some((id, j2)) => match parse_nullstr(s, j2) {
                Some((name, j3)) => match parse_u16(s, j3) {
                    Some((width, j4)) => match parse_u16(s, j4) {
                        Some((height, j5)) => match parse_exact(s, j5, TILE_MAP_EDIT_UNKNOWN3@) {
                            Some(j6) => match parse_u32(s, j6) {
                                Some((n, j7)) => match parse_layers(s, j7, n as nat) {
                                    Some((layers, j8)) => match parse_u32(s, j8) {
                                        Some((mcode, j9)) => match LOMusic::spec_from_code(
                                            mcode as i32,
                                        ) {
                                            Some(music) => match parse_u32(s, j9) {
                                                Some((revision, j10)) => Some(
                                                    (
                                                        ContentV::MapEditV {
                                                            id,
                                                            name,
                                                            width,
                                                            height,
                                                            layers,
                                                            music,
                                                            revision,
                                                        },
                                                        j10,
                                                    ),
                                                ),
                                                None => None,
                                            },
                                            None => None,
                                        },
                                        None => None,
                                    },
                                    None => None,
                                },
                                None => None,
                            },
                            None => None,
                        },
                        None => None,
                    },
                    None => None,
                },
                None => None,
            },
            None => None,
        },
        None => None,
    }
}

/// Stem content, selected by whichever NUL-terminated name matches.
pub open spec fn parse_content(s: Seq<u8>, i: int) -> Option<(ContentV, int)> {
    match parse_exact(s, i, ZONE_MAP_MAGIC@) {
        Some(j) => parse_zone_map_body(s, j),
        None => match parse_exact(s, i, MAP_EDIT_MAGIC@) {
            Some(j) => parse_map_edit_body(s, j),
            None => None,
        },
    }
}

/// A stem: its magic then its content; offset and length fields occupy no
/// bytes and are zero on a freshly parsed stem.
pub open spec fn parse_stem(s: Seq<u8>, i: int) -> Option<(StemV, int)> {
    match parse_exact(s, i, STEM_MAGIC@) {
        Some(j) => match parse_content(s, j) {
            Some((content, k)) => Some(
                (StemV { byte_offset: 0, byte_length: 0, content }, k),
            ),
            None => None,
        },
        None => None,
    }
}

/// Stems until the end of the input; the list is not counted on the wire.
pub open spec fn parse_stems_to_end(s: Seq<u8>, i: int) -> Option<Seq<StemV>>
    decreases s.len() - i,
{
    if i == s.len() {
        Some(Seq::empty())
    } else {
        match parse_stem(s, i) {
            Some((st, j)) => if i < j <= s.len() {
                match parse_stems_to_end(s, j) {
                    Some(sts) => Some(seq![st] + sts),
                    None => None,
                }
            } else {
                None
            },
            None => None,
        }
    }
}

/// A room entry of the zone header. The leading 32-bit value is read and
/// dropped, and the labelled name is skipped by its stored length.
pub open spec fn parse_room(s: Seq<u8>, i: int) -> Option<(LORoom, int)> {
    match parse_skip(s, i, 4) {
        Some(j1) => match parse_u32(s, j1) {
            Some((stem_offset, j2)) => match parse_u32(s, j2) {
                Some((stem_length, j3)) => match parse_u8(s, j3) {
                    Some((label_len, j4)) => match parse_skip(s, j4, label_len as int) {
                        Some(j5) => Some((LORoom { stem_offset, stem_length }, j5)),
                        None => None,
                    },
                    None => None,
                },
                None => None,
            },
            None => None,
        },
        None => None,
    }
}

pub open spec fn parse_rooms(s: Seq<u8>, i: int, n: nat) -> Option<(Seq<LORoom>, int)> {
    parse_list(s, i, n, |s2: Seq<u8>, i2: int| parse_room(s2, i2))
}

/// The zone header, given the room count from the document header.
pub open spec fn parse_zone(s: Seq<u8>, i: int, room_count: nat) -> Option<(ZoneV, int)> {
    match parse_skip(s, i, 4) {
        Some(j1) => match parse_u32(s, j1) {
            Some((stem_offset, j2)) => match parse_u32(s, j2) {
                Some((stem_length, j3)) => match parse_u8(s, j3) {
                    Some((label_len, j4)) => match parse_skip(s, j4, label_len as int) {
                        Some(j5) => match parse_rooms(s, j5, room_count) {
                            Some((rooms, j6)) => Some(
                                (ZoneV { stem_offset, stem_length, rooms }, j6),
                            ),
                            None => None,
                        },
                        None => None,
                    },
                    None => None,
                },
                None => None,
            },
            None => None,
        },
        None => None,
    }
}

/// A whole document. The stored room count is one more than the logical
/// one; a stored zero (which no writer produces) is malformed. The stems
/// run to the end of the input.
pub open spec fn parse_world(s: Seq<u8>) -> Option<WorldV> {
    match parse_exact(s, 0, WORLD_MAGIC@) {
        Some(j1) => match parse_skip(s, j1, 4) {
            Some(j2) => match parse_u32(s, j2) {
                Some((zone_stem_offset, j3)) => match parse_u32(s, j3) {
                    Some((raw_count, j4)) => if raw_count == 0 {
                        None
                    } else {
                        let room_count = (raw_count - 1) as u32;
                        match parse_zone(s, j4, room_count as nat) {
                            Some((zone, j5)) => match parse_stems_to_end(s, j5) {
                                Some(stems) => Some(
                                    WorldV { zone_stem_offset, room_count, zone, stems },
                                ),
                                None => None,
                            },
                            None => None,
                        }
                    },
                    None => None,
                },
                None => None,
            },
            None => None,
        },
        None => None,
    }
}

/// A tile tag outside the taxonomy is rejected: the tile parse yields
/// nothing, so a decode that reaches such a tag fails with a format
/// error rather than skipping past it.
pub proof fn lemma_unknown_tag_rejected(s: Seq<u8>, i: int, tag: u32, j: int)
    requires
        parse_u32(s, i) == Some((tag, j)),
        !is_conns_tag(tag),
        !is_dir_tag(tag),
        tag != 0x37,
        tag != 0x62,
        spec_plain_tile_from_tag(tag) is None,
    ensures
        parse_tile(s, i) is None,
{
}

/// Parsing one more element appends it to the list.
pub proof fn lemma_parse_list_snoc<T>(
    s: Seq<u8>,
    i: int,
    n: nat,
    f: spec_fn(Seq<u8>, int) -> Option<(T, int)>,
    vs: Seq<T>,
    j: int,
    v: T,
    k: int,
)
    requires
        parse_list(s, i, n, f) == Some((vs, j)),
        f(s, j) == Some((v, k)),
    ensures
        parse_list(s, i, n + 1, f) == Some((vs.push(v), k)),
    decreases n,
{
    if n == 0 {
        assert(vs =~= Seq::<T>::empty());
        assert(j == i);
        assert(parse_list(s, k, 0, f) == Some((Seq::<T>::empty(), k)));
        assert(seq![v] + Seq::<T>::empty() =~= vs.push(v));
    } else {
        let (v0, j0) = f(s, i)->Some_0;
        let (vs1, j1) = parse_list(s, j0, (n - 1) as nat, f)->Some_0;
        assert(vs == seq![v0] + vs1);
        assert(j1 == j);
        lemma_parse_list_snoc(s, j0, (n - 1) as nat, f, vs1, j, v, k);
        assert(parse_list(s, i, n + 1, f) == Some((seq![v0] + vs1.push(v), k)));
        assert(seq![v0] + vs1.push(v) =~= vs.push(v));
    }
}

/// A failing element read fails every longer list read that reaches it.
pub proof fn lemma_parse_list_fail<T>(
    s: Seq<u8>,
    i: int,
    n: nat,
    f: spec_fn(Seq<u8>, int) -> Option<(T, int)>,
    m: nat,
    vs: Seq<T>,
    j: int,
)
    requires
        m < n,
        parse_list(s, i, m, f) == Some((vs, j)),
        f(s, j) is None,
    ensures
        parse_list(s, i, n, f) is None,
    decreases m,
{
    if m == 0 {
        assert(j == i);
    } else {
        let (v0, j0) = f(s, i)->Some_0;
        let (vs1, j1) = parse_list(s, j0, (m - 1) as nat, f)->Some_0;
        lemma_parse_list_fail(s, j0, (n - 1) as nat, f, (m - 1) as nat, vs1, j);
    }
}

} // verus!
