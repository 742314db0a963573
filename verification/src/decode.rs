//! The executable decoder: one linear forward pass over the input bytes,
//! proved to return exactly what the parser specification describes.

use vstd::prelude::*;
use crate::data::LOLayer;
use crate::data::LORoom;
use crate::data::LORoomInfo;
use crate::data::LOStem;
use crate::data::LOStemContent;
use crate::data::LOWorld;
use crate::data::LOZone;
use crate::parse::lemma_parse_list_fail;
use crate::parse::lemma_parse_list_snoc;
use crate::parse::parse_connection;
use crate::parse::parse_connections;
use crate::parse::parse_content;
use crate::parse::parse_exact;
use crate::parse::parse_layer;
use crate::parse::parse_layers;
use crate::parse::parse_list;
use crate::parse::parse_map_edit_body;
use crate::parse::parse_nullstr;
use crate::parse::parse_room;
use crate::parse::parse_roominfo;
use crate::parse::parse_roominfos;
use crate::parse::parse_rooms;
use crate::parse::parse_stack_element;
use crate::parse::parse_stack_elements;
use crate::parse::parse_stack_tile;
use crate::parse::parse_stem;
use crate::parse::parse_stems_to_end;
use crate::parse::parse_tile;
use crate::parse::parse_tiles;
use crate::parse::parse_u16;
use crate::parse::parse_u32;
use crate::parse::parse_u8;
use crate::parse::parse_skip;
use crate::parse::parse_world;
use crate::parse::parse_zone;
use crate::parse::parse_zone_map_body;
use crate::tags::lemma_plain_tag_inverse;
use crate::tags::plain_tile_from_tag;
use crate::tags::stack_tile_from_tag;
use crate::tiles::LOConnection;
use crate::tiles::LODirection;
use crate::tiles::LOMusic;
use crate::tiles::LOStackDirection;
use crate::tiles::LOStackElement;
use crate::tiles::LOStackTile;
use crate::tiles::LOTile;
use crate::wire::MAP_EDIT_MAGIC;
use crate::wire::STEM_MAGIC;
use crate::wire::TILE_MAP_EDIT_UNKNOWN3;
use crate::wire::TILE_ZONE_MAP_UNKNOWN2;
use crate::wire::WORLD_MAGIC;
use crate::wire::ZONE_MAP_MAGIC;

verus! {

/// Why a byte stream was rejected: it does not form a document of this
/// format, or it comes from an unsupported revision of the game.
#[derive(Clone, Copy, Debug, PartialEq, Eq, Structural)]
pub enum LOFormatError {
    /// The input ended inside a record.
    Truncated,
    /// A magic tag was not where the format puts it.
    BadMagic,
    /// A fixed padding block differs from the known constant: the file is
    /// from an unsupported game version.
    PaddingMismatch,
    /// A tile tag outside the taxonomy.
    UnknownTileTag,
    /// A facing value outside the four directions.
    BadDirection,
    /// A music selector outside the known range.
    BadMusic,
    /// A count field no document can carry, such as a stored room count of
    /// zero.
    BadCount,
}

impl LOFormatError {
    /// A short description of the failure.
    pub fn message(&self) -> &'static str {
        match self {
            LOFormatError::Truncated => "input ended inside a record",
            LOFormatError::BadMagic => "magic tag missing or wrong",
            LOFormatError::PaddingMismatch => "fixed padding block differs; unsupported game version",
            LOFormatError::UnknownTileTag => "tile tag outside the taxonomy",
            LOFormatError::BadDirection => "facing value outside the four directions",
            LOFormatError::BadMusic => "music selector out of range",
            LOFormatError::BadCount => "count field malformed",
        }
    }
}

fn read_u8(bytes: &[u8], i: usize) -> (r: Result<(u8, usize), LOFormatError>)
    requires
        i <= bytes@.len(),
    ensures
        match r {
            Ok((v, j)) => parse_u8(bytes@, i as int) == Some((v, j as int)) && i <= j
                <= bytes@.len(),
            Err(_) => parse_u8(bytes@, i as int) is None,
        },
{
    if i < bytes.len() {
        Ok((bytes[i], i + 1))
    } else {
        Err(LOFormatError::Truncated)
    }
}

fn read_u16(bytes: &[u8], i: usize) -> (r: Result<(u16, usize), LOFormatError>)
    requires
        i <= bytes@.len(),
    ensures
        match r {
            Ok((v, j)) => parse_u16(bytes@, i as int) == Some((v, j as int)) && i <= j
                <= bytes@.len(),
            Err(_) => parse_u16(bytes@, i as int) is None,
        },
{
    if bytes.len() - i >= 2 {
        let b0 = bytes[i];
        let b1 = bytes[i + 1];
        Ok(((b0 as u16) | ((b1 as u16) << 8u16), i + 2))
    } else {
        Err(LOFormatError::Truncated)
    }
}

fn read_u32(bytes: &[u8], i: usize) -> (r: Result<(u32, usize), LOFormatError>)
    requires
        i <= bytes@.len(),
    ensures
        match r {
            Ok((v, j)) => parse_u32(bytes@, i as int) == Some((v, j as int)) && i <= j
                <= bytes@.len(),
            Err(_) => parse_u32(bytes@, i as int) is None,
        },
{
    if bytes.len() - i >= 4 {
        let b0 = bytes[i];
        let b1 = bytes[i + 1];
        let b2 = bytes[i + 2];
        let b3 = bytes[i + 3];
        Ok(
            (
                (b0 as u32) | ((b1 as u32) << 8u32) | ((b2 as u32) << 16u32) | ((b3 as u32)
                    << 24u32),
                i + 4,
            ),
        )
    } else {
        Err(LOFormatError::Truncated)
    }
}

fn read_exact(bytes: &[u8], i: usize, pat: &[u8], err: LOFormatError) -> (r: Result<
    usize,
    LOFormatError,
>)
    requires
        i <= bytes@.len(),
    ensures
        match r {
            Ok(j) => parse_exact(bytes@, i as int, pat@) == Some(j as int) && i <= j
                <= bytes@.len(),
            Err(_) => parse_exact(bytes@, i as int, pat@) is None,
        },
{
    if bytes.len() - i < pat.len() {
        return Err(err);
    }
    let mut k: usize = 0;
    while k < pat.len()
        invariant
            i + pat@.len() <= bytes@.len(),
            bytes@.len() <= usize::MAX,
            k <= pat@.len(),
            forall|m: int| 0 <= m < k ==> bytes@[i + m] == pat@[m],
        decreases pat@.len() - k,
    {
        if bytes[i + k] != pat[k] {
            proof {
                assert(bytes@.subrange(i as int, i + pat@.len()) != pat@) by {
                    if bytes@.subrange(i as int, i + pat@.len()) == pat@ {
                        assert(bytes@.subrange(i as int, i + pat@.len())[k as int] == bytes@[i
                            + k]);
                    }
                }
            }
            return Err(err);
        }
        k = k + 1;
    }
    proof {
        assert(bytes@.subrange(i as int, i + pat@.len()) =~= pat@);
    }
    Ok(i + pat.len())
}

fn read_skip(bytes: &[u8], i: usize, n: usize) -> (r: Result<usize, LOFormatError>)
    requires
        i <= bytes@.len(),
    ensures
        match r {
            Ok(j) => parse_skip(bytes@, i as int, n as int) == Some(j as int) && i <= j
                <= bytes@.len(),
            Err(_) => parse_skip(bytes@, i as int, n as int) is None,
        },
{
    if bytes.len() - i >= n {
        Ok(i + n)
    } else {
        Err(LOFormatError::Truncated)
    }
}

fn read_nullstr(bytes: &[u8], i: usize) -> (r: Result<(Vec<u8>, usize), LOFormatError>)
    requires
        i <= bytes@.len(),
    ensures
        match r {
            Ok((v, j)) => parse_nullstr(bytes@, i as int) == Some((v@, j as int)) && i <= j
                <= bytes@.len(),
            Err(_) => parse_nullstr(bytes@, i as int) is None,
        },
{
    let mut acc: Vec<u8> = Vec::new();
    let mut cur = i;
    loop
        invariant
            i <= cur <= bytes@.len(),
            parse_nullstr(bytes@, i as int) == (match parse_nullstr(bytes@, cur as int) {
                Some((t, j)) => Some((acc@ + t, j)),
                None => None,
            }),
        decreases bytes@.len() - cur,
    {
        if cur >= bytes.len() {
            return Err(LOFormatError::Truncated);
        }
        let b = bytes[cur];
        if b == 0 {
            proof {
                assert(acc@ + Seq::<u8>::empty() =~= acc@);
            }
            return Ok((acc, cur + 1));
        }
        proof {
            let rest = parse_nullstr(bytes@, cur as int + 1);
            if rest is Some {
                let (t, j) = rest->Some_0;
                assert(acc@ + (seq![bytes@[cur as int]] + t) =~= acc@.push(bytes@[cur as int])
                    + t);
            }
        }
        acc.push(b);
        cur = cur + 1;
    }
}

fn read_connection(bytes: &[u8], i: usize) -> (r: Result<(LOConnection, usize), LOFormatError>)
    requires
        i <= bytes@.len(),
    ensures
        match r {
            Ok((v, j)) => parse_connection(bytes@, i as int) == Some((v, j as int)) && i <= j
                <= bytes@.len(),
            Err(_) => parse_connection(bytes@, i as int) is None,
        },
{
    let (x, j) = read_u16(bytes, i)?;
    let (y, k) = read_u16(bytes, j)?;
    Ok((LOConnection { x_position: x, y_position: y }, k))
}

fn read_connections(bytes: &[u8], i: usize, n: u32) -> (r: Result<
    (Vec<LOConnection>, usize),
    LOFormatError,
>)
    requires
        i <= bytes@.len(),
    ensures
        match r {
            Ok((vs, j)) => parse_connections(bytes@, i as int, n as nat) == Some(
                (vs@, j as int),
            ) && i <= j <= bytes@.len(),
            Err(_) => parse_connections(bytes@, i as int, n as nat) is None,
        },
{
    let ghost f = |s2: Seq<u8>, i2: int| parse_connection(s2, i2);
    let mut vs: Vec<LOConnection> = Vec::new();
    let mut cur = i;
    let mut k: u32 = 0;
    while k < n
        invariant
            f == (|s2: Seq<u8>, i2: int| parse_connection(s2, i2)),
            i <= cur <= bytes@.len(),
            k <= n,
            parse_list(bytes@, i as int, k as nat, f) == Some((vs@, cur as int)),
        decreases n - k,
    {
        match read_connection(bytes, cur) {
            Ok((c, j)) => {
                proof {
                    assert(f(bytes@, cur as int) == parse_connection(bytes@, cur as int));
                    lemma_parse_list_snoc(
                        bytes@,
                        i as int,
                        k as nat,
                        f,
                        vs@,
                        cur as int,
                        c,
                        j as int,
                    );
                }
                vs.push(c);
                cur = j;
                k = k + 1;
            },
            Err(e) => {
                proof {
                    assert(f(bytes@, cur as int) == parse_connection(bytes@, cur as int));
                    lemma_parse_list_fail(bytes@, i as int, n as nat, f, k as nat, vs@,
                        cur as int);
                }
                return Err(e);
            },
        }
    }
    Ok((vs, cur))
}

fn read_stack_tile(bytes: &[u8], i: usize) -> (r: Result<(LOStackTile, usize), LOFormatError>)
    requires
        i <= bytes@.len(),
    ensures
        match r {
            Ok((t, j)) => parse_stack_tile(bytes@, i as int) == Some((t, j as int)) && i <= j
                <= bytes@.len(),
            Err(_) => parse_stack_tile(bytes@, i as int) is None,
        },
{
    let (tag, j) = read_u16(bytes, i)?;
    if tag == 0x0E {
        if bytes.len() - j >= 4 && bytes[j] == 0 && bytes[j + 1] == 0 && bytes[j + 2] == 0
            && bytes[j + 3] == 0 {
            proof {
                assert(bytes@.subrange(j as int, j as int + 4) =~= seq![0u8, 0u8, 0u8, 0u8]);
            }
            Ok((LOStackTile::PrimeKey, j + 4))
        } else {
            proof {
                if j + 4 <= bytes@.len() {
                    if bytes@.subrange(j as int, j as int + 4) == seq![0u8, 0u8, 0u8, 0u8] {
                        assert(bytes@[j as int] == bytes@.subrange(j as int, j as int + 4)[0]);
                        assert(bytes@[j as int + 1] == bytes@.subrange(j as int, j as int + 4)[1]);
                        assert(bytes@[j as int + 2] == bytes@.subrange(j as int, j as int + 4)[2]);
                        assert(bytes@[j as int + 3] == bytes@.subrange(j as int, j as int + 4)[3]);
                    }
                }
            }
            Ok((LOStackTile::Custom { id: tag }, j))
        }
    } else {
        match stack_tile_from_tag(tag) {
            Some(t) => Ok((t, j)),
            None => Ok((LOStackTile::Custom { id: tag }, j)),
        }
    }
}

fn read_stack_element(bytes: &[u8], i: usize) -> (r: Result<
    (LOStackElement, usize),
    LOFormatError,
>)
    requires
        i <= bytes@.len(),
    ensures
        match r {
            Ok((v, j)) => parse_stack_element(bytes@, i as int) == Some((v@, j as int)) && i <= j
                <= bytes@.len(),
            Err(_) => parse_stack_element(bytes@, i as int) is None,
        },
{
    let (tile, j) = read_stack_tile(bytes, i)?;
    let (dcode, k) = read_u16(bytes, j)?;
    let direction = match LOStackDirection::from_code(dcode) {
        Some(d) => d,
        None => {
            return Err(LOFormatError::BadDirection);
        },
    };
    if matches!(tile, LOStackTile::ToggleSwitch) {
        let (n, m) = read_u32(bytes, k)?;
        let (cs, e) = read_connections(bytes, m, n)?;
        Ok((LOStackElement { tile, direction, connections: cs }, e))
    } else {
        let cs: Vec<LOConnection> = Vec::new();
        Ok((LOStackElement { tile, direction, connections: cs }, k))
    }
}

fn read_stack_elements(bytes: &[u8], i: usize, n: u32) -> (r: Result<
    (Vec<LOStackElement>, usize),
    LOFormatError,
>)
    requires
        i <= bytes@.len(),
    ensures
        match r {
            Ok((vs, j)) => parse_stack_elements(bytes@, i as int, n as nat) == Some(
                (vs.deep_view(), j as int),
            ) && i <= j <= bytes@.len(),
            Err(_) => parse_stack_elements(bytes@, i as int, n as nat) is None,
        },
{
    let ghost f = |s2: Seq<u8>, i2: int| parse_stack_element(s2, i2);
    let mut vs: Vec<LOStackElement> = Vec::new();
    let mut cur = i;
    let mut k: u32 = 0;
    while k < n
        invariant
            f == (|s2: Seq<u8>, i2: int| parse_stack_element(s2, i2)),
            i <= cur <= bytes@.len(),
            k <= n,
            parse_list(bytes@, i as int, k as nat, f) == Some((vs.deep_view(), cur as int)),
        decreases n - k,
    {
        match read_stack_element(bytes, cur) {
            Ok((c, j)) => {
                proof {
                    assert(f(bytes@, cur as int) == parse_stack_element(bytes@, cur as int));
                    lemma_parse_list_snoc(
                        bytes@,
                        i as int,
                        k as nat,
                        f,
                        vs.deep_view(),
                        cur as int,
                        c@,
                        j as int,
                    );
                }
                let ghost old_vs = vs.deep_view();
                vs.push(c);
                proof {
                    assert(vs.deep_view() =~= old_vs.push(c@));
                }
                cur = j;
                k = k + 1;
            },
            Err(e) => {
                proof {
                    assert(f(bytes@, cur as int) == parse_stack_element(bytes@, cur as int));
                    lemma_parse_list_fail(
                        bytes@,
                        i as int,
                        n as nat,
                        f,
                        k as nat,
                        vs.deep_view(),
                        cur as int,
                    );
                }
                return Err(e);
            },
        }
    }
    Ok((vs, cur))
}

fn read_tile(bytes: &[u8], i: usize) -> (r: Result<(LOTile, usize), LOFormatError>)
    requires
        i <= bytes@.len(),
    ensures
        match r {
            Ok((t, j)) => parse_tile(bytes@, i as int) == Some((t@, j as int)) && i <= j
                <= bytes@.len(),
            Err(_) => parse_tile(bytes@, i as int) is None,
        },
{
    let (tag, j) = read_u32(bytes, i)?;
    if tag == 0x2D || tag == 0x60 || tag == 0x30 {
        let (n, j2) = read_u32(bytes, j)?;
        let (cs, j3) = read_connections(bytes, j2, n)?;
        let t = if tag == 0x2D {
            LOTile::PressurePlate { connections: cs }
        } else if tag == 0x60 {
            LOTile::SacrificeAltar { connections: cs }
        } else {
            LOTile::ToggleSwitch { connections: cs }
        };
        Ok((t, j3))
    } else if tag == 0x03 || tag == 0x1C || tag == 0x2B || tag == 0x2A {
        let (dcode, j2) = read_u32(bytes, j)?;
        let direction = match LODirection::from_code(dcode) {
            Some(d) => d,
            None => {
                return Err(LOFormatError::BadDirection);
            },
        };
        let t = if tag == 0x03 {
            LOTile::StartPoint { direction }
        } else if tag == 0x1C {
            LOTile::BombBug { direction }
        } else if tag == 0x2B {
            LOTile::Slug { direction }
        } else {
            LOTile::FlyingSnake { direction }
        };
        Ok((t, j2))
    } else if tag == 0x37 {
        let (text, j2) = read_nullstr(bytes, j)?;
        Ok((LOTile::Sign { text }, j2))
    } else if tag == 0x62 {
        let (n, j2) = read_u32(bytes, j)?;
        let (es, j3) = read_stack_elements(bytes, j2, n)?;
        Ok((LOTile::Stack { tiles: es }, j3))
    } else {
        match plain_tile_from_tag(tag) {
            Some(t) => {
                proof {
                    lemma_plain_tag_inverse(tag);
                }
                Ok((t, j))
            },
            None => Err(LOFormatError::UnknownTileTag),
        }
    }
}

fn read_tiles(bytes: &[u8], i: usize, n: u32) -> (r: Result<(Vec<LOTile>, usize), LOFormatError>)
    requires
        i <= bytes@.len(),
    ensures
        match r {
            Ok((vs, j)) => parse_tiles(bytes@, i as int, n as nat) == Some(
                (vs.deep_view(), j as int),
            ) && i <= j <= bytes@.len(),
            Err(_) => parse_tiles(bytes@, i as int, n as nat) is None,
        },
{
    let ghost f = |s2: Seq<u8>, i2: int| parse_tile(s2, i2);
    let mut vs: Vec<LOTile> = Vec::new();
    let mut cur = i;
    let mut k: u32 = 0;
    while k < n
        invariant
            f == (|s2: Seq<u8>, i2: int| parse_tile(s2, i2)),
            i <= cur <= bytes@.len(),
            k <= n,
            parse_list(bytes@, i as int, k as nat, f) == Some((vs.deep_view(), cur as int)),
        decreases n - k,
    {
        match read_tile(bytes, cur) {
            Ok((c, j)) => {
                proof {
                    assert(f(bytes@, cur as int) == parse_tile(bytes@, cur as int));
                    lemma_parse_list_snoc(
                        bytes@,
                        i as int,
                        k as nat,
                        f,
                        vs.deep_view(),
                        cur as int,
                        c@,
                        j as int,
                    );
                }
                let ghost old_vs = vs.deep_view();
                vs.push(c);
                proof {
                    assert(vs.deep_view() =~= old_vs.push(c@));
                }
                cur = j;
                k = k + 1;
            },
            Err(e) => {
                proof {
                    assert(f(bytes@, cur as int) == parse_tile(bytes@, cur as int));
                    lemma_parse_list_fail(
                        bytes@,
                        i as int,
                        n as nat,
                        f,
                        k as nat,
                        vs.deep_view(),
                        cur as int,
                    );
                }
                return Err(e);
            },
        }
    }
    Ok((vs, cur))
}

fn read_layer(bytes: &[u8], i: usize) -> (r: Result<(LOLayer, usize), LOFormatError>)
    requires
        i <= bytes@.len(),
    ensures
        match r {
            Ok((v, j)) => parse_layer(bytes@, i as int) == Some((v@, j as int)) && i <= j
                <= bytes@.len(),
            Err(_) => parse_layer(bytes@, i as int) is None,
        },
{
    let j1 = read_skip(bytes, i, 5)?;
    let (width, j2) = read_u16(bytes, j1)?;
    let (height, j3) = read_u16(bytes, j2)?;
    let j4 = read_skip(bytes, j3, 6)?;
    let (count, j5) = read_u32(bytes, j4)?;
    let (tiles, j6) = read_tiles(bytes, j5, count)?;
    Ok((LOLayer { width, height, tiles }, j6))
}

fn read_layers(bytes: &[u8], i: usize, n: u32) -> (r: Result<
    (Vec<LOLayer>, usize),
    LOFormatError,
>)
    requires
        i <= bytes@.len(),
    ensures
        match r {
            Ok((vs, j)) => parse_layers(bytes@, i as int, n as nat) == Some(
                (vs.deep_view(), j as int),
            ) && i <= j <= bytes@.len(),
            Err(_) => parse_layers(bytes@, i as int, n as nat) is None,
        },
{
    let ghost f = |s2: Seq<u8>, i2: int| parse_layer(s2, i2);
    let mut vs: Vec<LOLayer> = Vec::new();
    let mut cur = i;
    let mut k: u32 = 0;
    while k < n
        invariant
            f == (|s2: Seq<u8>, i2: int| parse_layer(s2, i2)),
            i <= cur <= bytes@.len(),
            k <= n,
            parse_list(bytes@, i as int, k as nat, f) == Some((vs.deep_view(), cur as int)),
        decreases n - k,
    {
        match read_layer(bytes, cur) {
            Ok((c, j)) => {
                proof {
                    assert(f(bytes@, cur as int) == parse_layer(bytes@, cur as int));
                    lemma_parse_list_snoc(
                        bytes@,
                        i as int,
                        k as nat,
                        f,
                        vs.deep_view(),
                        cur as int,
                        c@,
                        j as int,
                    );
                }
                let ghost old_vs = vs.deep_view();
                vs.push(c);
                proof {
                    assert(vs.deep_view() =~= old_vs.push(c@));
                }
                cur = j;
                k = k + 1;
            },
            Err(e) => {
                proof {
                    assert(f(bytes@, cur as int) == parse_layer(bytes@, cur as int));
                    lemma_parse_list_fail(
                        bytes@,
                        i as int,
                        n as nat,
                        f,
                        k as nat,
                        vs.deep_view(),
                        cur as int,
                    );
                }
                return Err(e);
            },
        }
    }
    Ok((vs, cur))
}

fn read_roominfo(bytes: &[u8], i: usize) -> (r: Result<(LORoomInfo, usize), LOFormatError>)
    requires
        i <= bytes@.len(),
    ensures
        match r {
            Ok((v, j)) => parse_roominfo(bytes@, i as int) == Some((v, j as int)) && i <= j
                <= bytes@.len(),
            Err(_) => parse_roominfo(bytes@, i as int) is None,
        },
{
    let (id, j1) = read_u32(bytes, i)?;
    let (x, j2) = read_u16(bytes, j1)?;
    let (y, j3) = read_u16(bytes, j2)?;
    let (width, j4) = read_u16(bytes, j3)?;
    let (height, j5) = read_u16(bytes, j4)?;
    let (z, j6) = read_u16(bytes, j5)?;
    let j7 = read_skip(bytes, j6, 2)?;
    Ok(
        (
            LORoomInfo {
                id,
                x_position: x as i16,
                y_position: y as i16,
                width,
                height,
                z_position: z as i16,
            },
            j7,
        ),
    )
}

fn read_roominfos(bytes: &[u8], i: usize, n: u32) -> (r: Result<
    (Vec<LORoomInfo>, usize),
    LOFormatError,
>)
    requires
        i <= bytes@.len(),
    ensures
        match r {
            Ok((vs, j)) => parse_roominfos(bytes@, i as int, n as nat) == Some(
                (vs@, j as int),
            ) && i <= j <= bytes@.len(),
            Err(_) => parse_roominfos(bytes@, i as int, n as nat) is None,
        },
{
    let ghost f = |s2: Seq<u8>, i2: int| parse_roominfo(s2, i2);
    let mut vs: Vec<LORoomInfo> = Vec::new();
    let mut cur = i;
    let mut k: u32 = 0;
    while k < n
        invariant
            f == (|s2: Seq<u8>, i2: int| parse_roominfo(s2, i2)),
            i <= cur <= bytes@.len(),
            k <= n,
            parse_list(bytes@, i as int, k as nat, f) == Some((vs@, cur as int)),
        decreases n - k,
    {
        match read_roominfo(bytes, cur) {
            Ok((c, j)) => {
                proof {
                    assert(f(bytes@, cur as int) == parse_roominfo(bytes@, cur as int));
                    lemma_parse_list_snoc(bytes@, i as int, k as nat, f, vs@, cur as int, c,
                        j as int);
                }
                vs.push(c);
                cur = j;
                k = k + 1;
            },
            Err(e) => {
                proof {
                    assert(f(bytes@, cur as int) == parse_roominfo(bytes@, cur as int));
                    lemma_parse_list_fail(bytes@, i as int, n as nat, f, k as nat, vs@,
                        cur as int);
                }
                return Err(e);
            },
        }
    }
    Ok((vs, cur))
}

fn read_zone_map_body(bytes: &[u8], i: usize) -> (r: Result<
    (LOStemContent, usize),
    LOFormatError,
>)
    requires
        i <= bytes@.len(),
    ensures
        match r {
            Ok((v, j)) => parse_zone_map_body(bytes@, i as int) == Some((v@, j as int)) && i <= j
                <= bytes@.len(),
            Err(_) => parse_zone_map_body(bytes@, i as int) is None,
        },
{
    let j1 = read_skip(bytes, i, 6)?;
    let (name, j2) = read_nullstr(bytes, j1)?;
    let j3 = read_exact(bytes, j2, TILE_ZONE_MAP_UNKNOWN2.as_slice(),
        LOFormatError::PaddingMismatch)?;
    let (n, j4) = read_u32(bytes, j3)?;
    let (room_info, j5) = read_roominfos(bytes, j4, n)?;
    let j6 = read_skip(bytes, j5, 4)?;
    let (description, j7) = read_nullstr(bytes, j6)?;
    let (author, j8) = read_nullstr(bytes, j7)?;
    let (guid_world, j9) = read_u32(bytes, j8)?;
    let j10 = read_skip(bytes, j9, 4)?;
    let (guid_author1, j11) = read_u32(bytes, j10)?;
    let j12 = read_skip(bytes, j11, 4)?;
    let (guid_author2, j13) = read_u32(bytes, j12)?;
    let (world_revision, j14) = read_u32(bytes, j13)?;
    let j15 = read_skip(bytes, j14, 4)?;
    let (unknown4, j16) = read_u32(bytes, j15)?;
    Ok(
        (
            LOStemContent::TileZoneMap {
                name,
                room_info,
                description,
                author,
                guid_world,
                guid_author1,
                guid_author2,
                world_revision,
                unknown4,
            },
            j16,
        ),
    )
}

fn read_map_edit_body(bytes: &[u8], i: usize) -> (r: Result<
    (LOStemContent, usize),
    LOFormatError,
>)
    requires
        i <= bytes@.len(),
    ensures
        match r {
            Ok((v, j)) => parse_map_edit_body(bytes@, i as int) == Some((v@, j as int)) && i <= j
                <= bytes@.len(),
            Err(_) => parse_map_edit_body(bytes@, i as int) is None,
        },
{
    let j1 = read_skip(bytes, i, 2)?;
    let (id, j2) = read_u32(bytes, j1)?;
    let (name, j3) = read_nullstr(bytes, j2)?;
    let (width, j4) = read_u16(bytes, j3)?;
    let (height, j5) = read_u16(bytes, j4)?;
    let j6 = read_exact(bytes, j5, TILE_MAP_EDIT_UNKNOWN3.as_slice(),
        LOFormatError::PaddingMismatch)?;
    let (n, j7) = read_u32(bytes, j6)?;
    let (layers, j8) = read_layers(bytes, j7, n)?;
    let (mcode, j9) = read_u32(bytes, j8)?;
    let music = match LOMusic::from_code(mcode as i32) {
        Some(m) => m,
        None => {
            return Err(LOFormatError::BadMusic);
        },
    };
    let (revision, j10) = read_u32(bytes, j9)?;
    Ok((LOStemContent::TileMapEdit { id, name, width, height, layers, music, revision }, j10))
}

fn read_content(bytes: &[u8], i: usize) -> (r: Result<(LOStemContent, usize), LOFormatError>)
    requires
        i <= bytes@.len(),
    ensures
        match r {
            Ok((v, j)) => parse_content(bytes@, i as int) == Some((v@, j as int)) && i <= j
                <= bytes@.len(),
            Err(_) => parse_content(bytes@, i as int) is None,
        },
{
    match read_exact(bytes, i, ZONE_MAP_MAGIC.as_slice(), LOFormatError::BadMagic) {
        Ok(j) => read_zone_map_body(bytes, j),
        Err(_) => match read_exact(bytes, i, MAP_EDIT_MAGIC.as_slice(), LOFormatError::BadMagic) {
            Ok(j) => read_map_edit_body(bytes, j),
            Err(e) => Err(e),
        },
    }
}

fn read_stem(bytes: &[u8], i: usize) -> (r: Result<(LOStem, usize), LOFormatError>)
    requires
        i <= bytes@.len(),
    ensures
        match r {
            Ok((v, j)) => parse_stem(bytes@, i as int) == Some((v@, j as int)) && i < j
                <= bytes@.len(),
            Err(_) => parse_stem(bytes@, i as int) is None,
        },
{
    let j = read_exact(bytes, i, STEM_MAGIC.as_slice(), LOFormatError::BadMagic)?;
    let (content, k) = read_content(bytes, j)?;
    Ok((LOStem { byte_offset: 0, byte_length: 0, content }, k))
}

fn read_stems_to_end(bytes: &[u8], i: usize) -> (r: Result<Vec<LOStem>, LOFormatError>)
    requires
        i <= bytes@.len(),
    ensures
        match r {
            Ok(vs) => parse_stems_to_end(bytes@, i as int) == Some(vs.deep_view()),
            Err(_) => parse_stems_to_end(bytes@, i as int) is None,
        },
{
    let mut vs: Vec<LOStem> = Vec::new();
    let mut cur = i;
    while cur < bytes.len()
        invariant
            i <= cur <= bytes@.len(),
            parse_stems_to_end(bytes@, i as int) == (match parse_stems_to_end(
                bytes@,
                cur as int,
            ) {
                Some(rest) => Some(vs.deep_view() + rest),
                None => None,
            }),
        decreases bytes@.len() - cur,
    {
        match read_stem(bytes, cur) {
            Ok((st, j)) => {
                proof {
                    let rest2 = parse_stems_to_end(bytes@, j as int);
                    if rest2 is Some {
                        assert(vs.deep_view() + (seq![st@] + rest2->Some_0) =~= vs.deep_view()
                            .push(st@) + rest2->Some_0);
                    }
                }
                let ghost old_vs = vs.deep_view();
                vs.push(st);
                proof {
                    assert(vs.deep_view() =~= old_vs.push(st@));
                }
                cur = j;
            },
            Err(e) => {
                return Err(e);
            },
        }
    }
    proof {
        assert(parse_stems_to_end(bytes@, cur as int) == Some(Seq::<crate::views::StemV>::empty()));
        assert(vs.deep_view() + Seq::<crate::views::StemV>::empty() =~= vs.deep_view());
    }
    Ok(vs)
}

fn read_room(bytes: &[u8], i: usize) -> (r: Result<(LORoom, usize), LOFormatError>)
    requires
        i <= bytes@.len(),
    ensures
        match r {
            Ok((v, j)) => parse_room(bytes@, i as int) == Some((v, j as int)) && i <= j
                <= bytes@.len(),
            Err(_) => parse_room(bytes@, i as int) is None,
        },
{
    let j1 = read_skip(bytes, i, 4)?;
    let (stem_offset, j2) = read_u32(bytes, j1)?;
    let (stem_length, j3) = read_u32(bytes, j2)?;
    let (label_len, j4) = read_u8(bytes, j3)?;
    let j5 = read_skip(bytes, j4, label_len as usize)?;
    Ok((LORoom { stem_offset, stem_length }, j5))
}

fn read_rooms(bytes: &[u8], i: usize, n: u32) -> (r: Result<(Vec<LORoom>, usize), LOFormatError>)
    requires
        i <= bytes@.len(),
    ensures
        match r {
            Ok((vs, j)) => parse_rooms(bytes@, i as int, n as nat) == Some((vs@, j as int)) && i
                <= j <= bytes@.len(),
            Err(_) => parse_rooms(bytes@, i as int, n as nat) is None,
        },
{
    let ghost f = |s2: Seq<u8>, i2: int| parse_room(s2, i2);
    let mut vs: Vec<LORoom> = Vec::new();
    let mut cur = i;
    let mut k: u32 = 0;
    while k < n
        invariant
            f == (|s2: Seq<u8>, i2: int| parse_room(s2, i2)),
            i <= cur <= bytes@.len(),
            k <= n,
            parse_list(bytes@, i as int, k as nat, f) == Some((vs@, cur as int)),
        decreases n - k,
    {
        match read_room(bytes, cur) {
            Ok((c, j)) => {
                proof {
                    assert(f(bytes@, cur as int) == parse_room(bytes@, cur as int));
                    lemma_parse_list_snoc(bytes@, i as int, k as nat, f, vs@, cur as int, c,
                        j as int);
                }
                vs.push(c);
                cur = j;
                k = k + 1;
            },
            Err(e) => {
                proof {
                    assert(f(bytes@, cur as int) == parse_room(bytes@, cur as int));
                    lemma_parse_list_fail(bytes@, i as int, n as nat, f, k as nat, vs@,
                        cur as int);
                }
                return Err(e);
            },
        }
    }
    Ok((vs, cur))
}

fn read_zone(bytes: &[u8], i: usize, room_count: u32) -> (r: Result<
    (LOZone, usize),
    LOFormatError,
>)
    requires
        i <= bytes@.len(),
    ensures
        match r {
            Ok((v, j)) => parse_zone(bytes@, i as int, room_count as nat) == Some(
                (v@, j as int),
            ) && i <= j <= bytes@.len(),
            Err(_) => parse_zone(bytes@, i as int, room_count as nat) is None,
        },
{
    let j1 = read_skip(bytes, i, 4)?;
    let (stem_offset, j2) = read_u32(bytes, j1)?;
    let (stem_length, j3) = read_u32(bytes, j2)?;
    let (label_len, j4) = read_u8(bytes, j3)?;
    let j5 = read_skip(bytes, j4, label_len as usize)?;
    let (rooms, j6) = read_rooms(bytes, j5, room_count)?;
    Ok((LOZone { stem_offset, stem_length, rooms }, j6))
}

/// Decodes a whole document from its bytes: the header, the zone with one
/// entry per room, and the stems up to the end of the input. Succeeds on
/// exactly the inputs the parser specification accepts, and then returns
/// exactly the document it describes.
pub fn decode(bytes: &[u8]) -> (r: Result<LOWorld, LOFormatError>)
    ensures
        match r {
            Ok(w) => parse_world(bytes@) == Some(w@),
            Err(_) => parse_world(bytes@) is None,
        },
{
    let j1 = read_exact(bytes, 0, WORLD_MAGIC.as_slice(), LOFormatError::BadMagic)?;
    let j2 = read_skip(bytes, j1, 4)?;
    let (zone_stem_offset, j3) = read_u32(bytes, j2)?;
    let (raw_count, j4) = read_u32(bytes, j3)?;
    if raw_count == 0 {
        return Err(LOFormatError::BadCount);
    }
    let room_count = raw_count - 1;
    let (zone, j5) = read_zone(bytes, j4, room_count)?;
    let stems = read_stems_to_end(bytes, j5)?;
    Ok(LOWorld { zone_stem_offset, room_count, zone, stems })
}

} // verus!
