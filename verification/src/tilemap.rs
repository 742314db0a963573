//! The tilemap layering engine: five fixed, ordered layers per room and
//! the game's mutual-exclusion rules for writing a tile into a selection.
//!
//! Layer one holds floors and walls; layer two obstacles and puzzle
//! obstacles (trapdoors included); layer three crumbly walls, gates and
//! toggle doors; layer four keys, blocks and the start point; layer five
//! doors, monsters, signs, stacks and switches.

use vstd::prelude::*;
use crate::data::LOLayer;
use crate::selection::cell_idx;
use crate::selection::lemma_cell_idx;
use crate::selection::TileSelection;
use crate::tags::lemma_plain_tag_round_trip;
use crate::tags::plain_tile_from_tag;
use crate::tiles::LOConnection;
use crate::tiles::LOStackElement;
use crate::tiles::LOTile;

verus! {

fn copy_connections(v: &Vec<LOConnection>) -> (r: Vec<LOConnection>)
    ensures
        r@ == v@,
{
    let mut r: Vec<LOConnection> = Vec::new();
    let mut i: usize = 0;
    while i < v.len()
        invariant
            i <= v@.len(),
            r@ == v@.take(i as int),
        decreases v@.len() - i,
    {
        r.push(v[i]);
        proof {
            assert(v@.take(i as int).push(v@[i as int]) =~= v@.take(i as int + 1));
        }
        i = i + 1;
    }
    proof {
        assert(v@.take(v@.len() as int) =~= v@);
    }
    r
}

fn copy_bytes(v: &Vec<u8>) -> (r: Vec<u8>)
    ensures
        r@ == v@,
{
    let mut r: Vec<u8> = Vec::new();
    let mut i: usize = 0;
    while i < v.len()
        invariant
            i <= v@.len(),
            r@ == v@.take(i as int),
        decreases v@.len() - i,
    {
        r.push(v[i]);
        proof {
            assert(v@.take(i as int).push(v@[i as int]) =~= v@.take(i as int + 1));
        }
        i = i + 1;
    }
    proof {
        assert(v@.take(v@.len() as int) =~= v@);
    }
    r
}

fn copy_stack_elements(v: &Vec<LOStackElement>) -> (r: Vec<LOStackElement>)
    ensures
        r.deep_view() == v.deep_view(),
{
    let mut r: Vec<LOStackElement> = Vec::new();
    let mut i: usize = 0;
    while i < v.len()
        invariant
            i <= v@.len(),
            v.deep_view().len() == v@.len(),
            r.deep_view() == v.deep_view().take(i as int),
        decreases v@.len() - i,
    {
        let e = &v[i];
        let copied = LOStackElement {
            tile: e.tile,
            direction: e.direction,
            connections: copy_connections(&e.connections),
        };
        proof {
            assert(copied@ == v@[i as int]@);
            let dv0 = r.deep_view();
        }
        let ghost dv0 = r.deep_view();
        r.push(copied);
        proof {
            assert(r.deep_view() =~= dv0.push(copied@));
            assert(v.deep_view().take(i as int).push(v.deep_view()[i as int]) =~= v.deep_view()
                .take(i as int + 1));
        }
        i = i + 1;
    }
    proof {
        assert(v.deep_view().take(v.deep_view().len() as int) =~= v.deep_view());
    }
    r
}

/// A fresh tile with the same wire view as the given one; the verified
/// stand-in for cloning, since nothing is known of a derived clone.
fn duplicate_tile(t: &LOTile) -> (r: LOTile)
    ensures
        r@ == t@,
{
    match t {
        LOTile::PressurePlate { connections } => LOTile::PressurePlate {
            connections: copy_connections(connections),
        },
        LOTile::SacrificeAltar { connections } => LOTile::SacrificeAltar {
            connections: copy_connections(connections),
        },
        LOTile::ToggleSwitch { connections } => LOTile::ToggleSwitch {
            connections: copy_connections(connections),
        },
        LOTile::StartPoint { direction } => LOTile::StartPoint { direction: *direction },
        LOTile::BombBug { direction } => LOTile::BombBug { direction: *direction },
        LOTile::Slug { direction } => LOTile::Slug { direction: *direction },
        LOTile::FlyingSnake { direction } => LOTile::FlyingSnake { direction: *direction },
        LOTile::Sign { text } => LOTile::Sign { text: copy_bytes(text) },
        LOTile::Stack { tiles } => LOTile::Stack { tiles: copy_stack_elements(tiles) },
        _ => {
            proof {
                lemma_plain_tag_round_trip(*t);
            }
            match plain_tile_from_tag(t.tag()) {
                Some(p) => p,
                None => {
                    proof {
                        assert(false);
                    }
                    LOTile::Empty
                },
            }
        },
    }
}

/// Writes a copy of `tile` into every selected cell of one layer grid.
fn overwrite_cells(
    tiles: &mut Vec<LOTile>,
    width: usize,
    height: usize,
    selection: &TileSelection,
    tile: &LOTile,
)
    requires
        old(tiles)@.len() == width * height,
        selection.wf(),
        selection.width == width,
        selection.height == height,
    ensures
        final(tiles)@.len() == width * height,
        forall|px: int, py: int|
            0 <= px < width && 0 <= py < height ==> (if selection.sel(px, py) {
                (#[trigger] final(tiles)@[cell_idx(width as int, px, py)])@ == tile@
            } else {
                final(tiles)@[cell_idx(width as int, px, py)] == old(tiles)@[cell_idx(
                    width as int,
                    px,
                    py,
                )]
            }),
{
    let ghost pre = tiles@;
    let total = tiles.len();
    let total_sel = selection.bools.len();
    let mut cy: usize = 0;
    while cy < height
        invariant
            tiles@.len() == width * height,
            width * height <= usize::MAX,
            selection.wf(),
            selection.width == width,
            selection.height == height,
            pre.len() == width * height,
            cy <= height,
            forall|px: int, py: int|
                0 <= px < width && 0 <= py < height ==> (if py < cy && selection.sel(px, py) {
                    (#[trigger] tiles@[cell_idx(width as int, px, py)])@ == tile@
                } else {
                    tiles@[cell_idx(width as int, px, py)] == pre[cell_idx(width as int, px, py)]
                }),
        decreases height - cy,
    {
        let mut cx: usize = 0;
        while cx < width
            invariant
                tiles@.len() == width * height,
                width * height <= usize::MAX,
                selection.wf(),
                selection.width == width,
                selection.height == height,
                pre.len() == width * height,
                cy < height,
                cx <= width,
                forall|px: int, py: int|
                    0 <= px < width && 0 <= py < height ==> (if (py < cy || (py == cy && px < cx))
                        && selection.sel(px, py) {
                        (#[trigger] tiles@[cell_idx(width as int, px, py)])@ == tile@
                    } else {
                        tiles@[cell_idx(width as int, px, py)] == pre[cell_idx(
                            width as int,
                            px,
                            py,
                        )]
                    }),
            decreases width - cx,
        {
            proof {
                lemma_cell_idx(width as int, height as int, cx as int, cy as int, cx as int,
                    cy as int);
            }
            if selection.bools[cy * width + cx] {
                let fresh = duplicate_tile(tile);
                tiles[cy * width + cx] = fresh;
            }
            proof {
                assert forall|px: int, py: int|
                    0 <= px < width && 0 <= py < height implies (if (py < cy || (py == cy && px
                    <= cx)) && selection.sel(px, py) {
                    (#[trigger] tiles@[cell_idx(width as int, px, py)])@ == tile@
                } else {
                    tiles@[cell_idx(width as int, px, py)] == pre[cell_idx(width as int, px, py)]
                }) by {
                    lemma_cell_idx(width as int, height as int, px, py, cx as int, cy as int);
                }
            }
            cx = cx + 1;
        }
        cy = cy + 1;
    }
}

/// Empties every selected cell of one layer grid.
fn clear_cells(tiles: &mut Vec<LOTile>, width: usize, height: usize, selection: &TileSelection)
    requires
        old(tiles)@.len() == width * height,
        selection.wf(),
        selection.width == width,
        selection.height == height,
    ensures
        final(tiles)@.len() == width * height,
        forall|px: int, py: int|
            0 <= px < width && 0 <= py < height ==> (if selection.sel(px, py) {
                (#[trigger] final(tiles)@[cell_idx(width as int, px, py)]) is Empty
            } else {
                final(tiles)@[cell_idx(width as int, px, py)] == old(tiles)@[cell_idx(
                    width as int,
                    px,
                    py,
                )]
            }),
{
    let ghost pre = tiles@;
    let total = tiles.len();
    let total_sel = selection.bools.len();
    let mut cy: usize = 0;
    while cy < height
        invariant
            tiles@.len() == width * height,
            width * height <= usize::MAX,
            selection.wf(),
            selection.width == width,
            selection.height == height,
            pre.len() == width * height,
            cy <= height,
            forall|px: int, py: int|
                0 <= px < width && 0 <= py < height ==> (if py < cy && selection.sel(px, py) {
                    (#[trigger] tiles@[cell_idx(width as int, px, py)]) is Empty
                } else {
                    tiles@[cell_idx(width as int, px, py)] == pre[cell_idx(width as int, px, py)]
                }),
        decreases height - cy,
    {
        let mut cx: usize = 0;
        while cx < width
            invariant
                tiles@.len() == width * height,
                width * height <= usize::MAX,
                selection.wf(),
                selection.width == width,
                selection.height == height,
                pre.len() == width * height,
                cy < height,
                cx <= width,
                forall|px: int, py: int|
                    0 <= px < width && 0 <= py < height ==> (if (py < cy || (py == cy && px < cx))
                        && selection.sel(px, py) {
                        (#[trigger] tiles@[cell_idx(width as int, px, py)]) is Empty
                    } else {
                        tiles@[cell_idx(width as int, px, py)] == pre[cell_idx(
                            width as int,
                            px,
                            py,
                        )]
                    }),
            decreases width - cx,
        {
            proof {
                lemma_cell_idx(width as int, height as int, cx as int, cy as int, cx as int,
                    cy as int);
            }
            if selection.bools[cy * width + cx] {
                tiles[cy * width + cx] = LOTile::Empty;
            }
            proof {
                assert forall|px: int, py: int|
                    0 <= px < width && 0 <= py < height implies (if (py < cy || (py == cy && px
                    <= cx)) && selection.sel(px, py) {
                    (#[trigger] tiles@[cell_idx(width as int, px, py)]) is Empty
                } else {
                    tiles@[cell_idx(width as int, px, py)] == pre[cell_idx(width as int, px, py)]
                }) by {
                    lemma_cell_idx(width as int, height as int, px, py, cx as int, cy as int);
                }
            }
            cx = cx + 1;
        }
        cy = cy + 1;
    }
}

/// At selected cells, empties the layer-two occupant exactly when it is
/// the pillar obstacle or not itself a puzzle obstacle; other puzzle
/// obstacles survive a wall write.
fn clear_l2_for_wall(tiles: &mut Vec<LOTile>, width: usize, height: usize, selection: &TileSelection)
    requires
        old(tiles)@.len() == width * height,
        selection.wf(),
        selection.width == width,
        selection.height == height,
    ensures
        final(tiles)@.len() == width * height,
        forall|px: int, py: int|
            0 <= px < width && 0 <= py < height ==> (if selection.sel(px, py) && ((#[trigger] old(
                tiles,
            )@[cell_idx(width as int, px, py)]) is Pillar || !old(tiles)@[cell_idx(
                width as int,
                px,
                py,
            )].spec_is_puzzle_obstacle()) {
                final(tiles)@[cell_idx(width as int, px, py)] is Empty
            } else {
                final(tiles)@[cell_idx(width as int, px, py)] == old(tiles)@[cell_idx(
                    width as int,
                    px,
                    py,
                )]
            }),
{
    let ghost pre = tiles@;
    let total = tiles.len();
    let total_sel = selection.bools.len();
    let mut cy: usize = 0;
    while cy < height
        invariant
            tiles@.len() == width * height,
            width * height <= usize::MAX,
            selection.wf(),
            selection.width == width,
            selection.height == height,
            pre.len() == width * height,
            cy <= height,
            forall|px: int, py: int|
                0 <= px < width && 0 <= py < height ==> (if py < cy && selection.sel(px, py) && ((
                #[trigger] pre[cell_idx(width as int, px, py)]) is Pillar || !pre[cell_idx(
                    width as int,
                    px,
                    py,
                )].spec_is_puzzle_obstacle()) {
                    tiles@[cell_idx(width as int, px, py)] is Empty
                } else {
                    tiles@[cell_idx(width as int, px, py)] == pre[cell_idx(width as int, px, py)]
                }),
        decreases height - cy,
    {
        let mut cx: usize = 0;
        while cx < width
            invariant
                tiles@.len() == width * height,
                width * height <= usize::MAX,
                selection.wf(),
                selection.width == width,
                selection.height == height,
                pre.len() == width * height,
                cy < height,
                cx <= width,
                forall|px: int, py: int|
                    0 <= px < width && 0 <= py < height ==> (if (py < cy || (py == cy && px < cx))
                        && selection.sel(px, py) && ((#[trigger] pre[cell_idx(
                        width as int,
                        px,
                        py,
                    )]) is Pillar || !pre[cell_idx(width as int, px, py)].spec_is_puzzle_obstacle()) {
                        tiles@[cell_idx(width as int, px, py)] is Empty
                    } else {
                        tiles@[cell_idx(width as int, px, py)] == pre[cell_idx(
                            width as int,
                            px,
                            py,
                        )]
                    }),
            decreases width - cx,
        {
            proof {
                lemma_cell_idx(width as int, height as int, cx as int, cy as int, cx as int,
                    cy as int);
            }
            if selection.bools[cy * width + cx] {
                let stomped = matches!(tiles[cy * width + cx], LOTile::Pillar) || !tiles[cy * width
                    + cx].is_puzzle_obstacle();
                if stomped {
                    tiles[cy * width + cx] = LOTile::Empty;
                }
            }
            proof {
                assert forall|px: int, py: int|
                    0 <= px < width && 0 <= py < height implies (if (py < cy || (py == cy && px
                    <= cx)) && selection.sel(px, py) && ((#[trigger] pre[cell_idx(
                    width as int,
                    px,
                    py,
                )]) is Pillar || !pre[cell_idx(width as int, px, py)].spec_is_puzzle_obstacle()) {
                    tiles@[cell_idx(width as int, px, py)] is Empty
                } else {
                    tiles@[cell_idx(width as int, px, py)] == pre[cell_idx(width as int, px, py)]
                }) by {
                    lemma_cell_idx(width as int, height as int, px, py, cx as int, cy as int);
                }
            }
            cx = cx + 1;
        }
        cy = cy + 1;
    }
}

/// Whether some entry of the compatible-floor list has the same variant
/// as the given tile.
pub open spec fn spec_floor_matches(floors: Seq<LOTile>, t: LOTile) -> bool {
    exists|k: int| 0 <= k < floors.len() && (#[trigger] floors[k]).spec_tag() == t.spec_tag()
}

fn floor_matches(floors: &Vec<LOTile>, t: &LOTile) -> (r: bool)
    ensures
        r == spec_floor_matches(floors@, *t),
{
    let mut k: usize = 0;
    while k < floors.len()
        invariant
            k <= floors@.len(),
            forall|m: int| 0 <= m < k ==> (#[trigger] floors@[m]).spec_tag() != t.spec_tag(),
        decreases floors@.len() - k,
    {
        if floors[k].same_type_as(t) {
            return true;
        }
        k = k + 1;
    }
    false
}

/// At selected cells whose floor matches no entry of the trapdoor's
/// compatible-floor list, writes the canonical (first-listed) floor; all
/// other cells keep their floor.
fn canonicalize_floors(
    tiles: &mut Vec<LOTile>,
    width: usize,
    height: usize,
    selection: &TileSelection,
    trapdoor: &LOTile,
)
    requires
        old(tiles)@.len() == width * height,
        selection.wf(),
        selection.width == width,
        selection.height == height,
        trapdoor.spec_is_trapdoor(),
    ensures
        final(tiles)@.len() == width * height,
        forall|px: int, py: int|
            0 <= px < width && 0 <= py < height ==> (if selection.sel(px, py)
                && !spec_floor_matches(
                trapdoor.spec_trapdoor_floors(),
                old(tiles)@[cell_idx(width as int, px, py)],
            ) {
                (#[trigger] final(tiles)@[cell_idx(width as int, px, py)])@
                    == trapdoor.spec_trapdoor_floors()[0]@
            } else {
                final(tiles)@[cell_idx(width as int, px, py)] == old(tiles)@[cell_idx(
                    width as int,
                    px,
                    py,
                )]
            }),
{
    let floors = trapdoor.get_trapdoor_floors();
    let ghost pre = tiles@;
    let total = tiles.len();
    let total_sel = selection.bools.len();
    let mut cy: usize = 0;
    while cy < height
        invariant
            tiles@.len() == width * height,
            width * height <= usize::MAX,
            selection.wf(),
            selection.width == width,
            selection.height == height,
            pre.len() == width * height,
            floors@ == trapdoor.spec_trapdoor_floors(),
            floors@.len() > 0,
            cy <= height,
            forall|px: int, py: int|
                0 <= px < width && 0 <= py < height ==> (if py < cy && selection.sel(px, py)
                    && !spec_floor_matches(floors@, pre[cell_idx(width as int, px, py)]) {
                    (#[trigger] tiles@[cell_idx(width as int, px, py)])@ == floors@[0]@
                } else {
                    tiles@[cell_idx(width as int, px, py)] == pre[cell_idx(width as int, px, py)]
                }),
        decreases height - cy,
    {
        let mut cx: usize = 0;
        while cx < width
            invariant
                tiles@.len() == width * height,
                width * height <= usize::MAX,
                selection.wf(),
                selection.width == width,
                selection.height == height,
                pre.len() == width * height,
                floors@ == trapdoor.spec_trapdoor_floors(),
                floors@.len() > 0,
                cy < height,
                cx <= width,
                forall|px: int, py: int|
                    0 <= px < width && 0 <= py < height ==> (if (py < cy || (py == cy && px < cx))
                        && selection.sel(px, py) && !spec_floor_matches(
                        floors@,
                        pre[cell_idx(width as int, px, py)],
                    ) {
                        (#[trigger] tiles@[cell_idx(width as int, px, py)])@ == floors@[0]@
                    } else {
                        tiles@[cell_idx(width as int, px, py)] == pre[cell_idx(
                            width as int,
                            px,
                            py,
                        )]
                    }),
            decreases width - cx,
        {
            proof {
                lemma_cell_idx(width as int, height as int, cx as int, cy as int, cx as int,
                    cy as int);
            }
            if selection.bools[cy * width + cx] {
                let matched = floor_matches(&floors, &tiles[cy * width + cx]);
                if !matched {
                    let fresh = duplicate_tile(&floors[0]);
                    tiles[cy * width + cx] = fresh;
                }
            }
            proof {
                assert forall|px: int, py: int|
                    0 <= px < width && 0 <= py < height implies (if (py < cy || (py == cy && px
                    <= cx)) && selection.sel(px, py) && !spec_floor_matches(
                    floors@,
                    pre[cell_idx(width as int, px, py)],
                ) {
                    (#[trigger] tiles@[cell_idx(width as int, px, py)])@ == floors@[0]@
                } else {
                    tiles@[cell_idx(width as int, px, py)] == pre[cell_idx(width as int, px, py)]
                }) by {
                    lemma_cell_idx(width as int, height as int, px, py, cx as int, cy as int);
                }
            }
            cx = cx + 1;
        }
        cy = cy + 1;
    }
}

/// The five layer grids of a room.
#[derive(Clone, Debug, PartialEq, Eq)]
pub struct Tilemap {
    pub l1: LOLayer,
    pub l2: LOLayer,
    pub l3: LOLayer,
    pub l4: LOLayer,
    pub l5: LOLayer,
}

impl Tilemap {
    /// Floors and walls.
    pub const LAYER1: u8 = 0;

    /// Obstacles, trapdoors, ladders, waypoints, the goal star, pressure
    /// plates, sacrifice altars and toggle floors.
    pub const LAYER2: u8 = 1;

    /// Crumbly walls, toggle doors and monster gates.
    pub const LAYER3: u8 = 2;

    /// Keys, push blocks and the start point.
    pub const LAYER4: u8 = 3;

    /// Monsters, key doors, statue rubble, poison trail, signs, stacks
    /// and toggle switches.
    pub const LAYER5: u8 = 4;

    /// The tiles of layer `l` (zero-based), in row-major order.
    pub open spec fn lt(self, l: int) -> Seq<LOTile> {
        if l == 0 {
            self.l1.tiles@
        } else if l == 1 {
            self.l2.tiles@
        } else if l == 2 {
            self.l3.tiles@
        } else if l == 3 {
            self.l4.tiles@
        } else {
            self.l5.tiles@
        }
    }

    pub open spec fn spec_width(self) -> int {
        self.l1.width as int
    }

    pub open spec fn spec_height(self) -> int {
        self.l1.height as int
    }

    /// The tile of layer `l` at column `x`, row `y`.
    pub open spec fn at(self, l: int, x: int, y: int) -> LOTile {
        self.lt(l)[cell_idx(self.spec_width(), x, y)]
    }

    /// All five layers share the declared dimensions and hold one tile
    /// per cell.
    pub open spec fn wf(self) -> bool {
        &&& self.l1.width == self.l2.width == self.l3.width == self.l4.width == self.l5.width
        &&& self.l1.height == self.l2.height == self.l3.height == self.l4.height
            == self.l5.height
        &&& forall|l: int| 0 <= l < 5 ==> (#[trigger] self.lt(l)).len() == self.spec_width()
            * self.spec_height()
    }

    /// A selection that addresses this map's cells.
    pub open spec fn fits(self, selection: TileSelection) -> bool {
        &&& selection.wf()
        &&& selection.width == self.spec_width()
        &&& selection.height == self.spec_height()
    }

    /// Layers other than `l` are unchanged between the two maps.
    pub open spec fn others_unchanged(pre: Tilemap, post: Tilemap, l: int) -> bool {
        forall|m: int| 0 <= m < 5 && m != l ==> (#[trigger] post.lt(m)) == pre.lt(m)
    }

    /// Dimensions are unchanged between the two maps.
    pub open spec fn same_dims(pre: Tilemap, post: Tilemap) -> bool {
        &&& post.wf()
        &&& post.spec_width() == pre.spec_width()
        &&& post.spec_height() == pre.spec_height()
    }
}

/// What writing `tile` onto layer `l` under `selection` leaves behind:
/// selected cells of that layer hold the tile, everything else is
/// unchanged.
pub open spec fn is_overwrite(
    pre: Tilemap,
    post: Tilemap,
    l: int,
    tile: LOTile,
    selection: TileSelection,
) -> bool {
    &&& Tilemap::same_dims(pre, post)
    &&& Tilemap::others_unchanged(pre, post, l)
    &&& forall|px: int, py: int|
        0 <= px < pre.spec_width() && 0 <= py < pre.spec_height() ==> (if selection.sel(px, py) {
            (#[trigger] post.at(l, px, py))@ == tile@
        } else {
            post.at(l, px, py) == pre.at(l, px, py)
        })
}

/// What clearing layer `l` under `selection` leaves behind.
pub open spec fn is_clear(pre: Tilemap, post: Tilemap, l: int, selection: TileSelection) -> bool {
    forall|px: int, py: int|
        0 <= px < pre.spec_width() && 0 <= py < pre.spec_height() ==> (if selection.sel(px, py) {
            (#[trigger] post.at(l, px, py)) is Empty
        } else {
            post.at(l, px, py) == pre.at(l, px, py)
        })
}

/// The wall cascade on layer two: at selected cells a pillar or a
/// non-puzzle obstacle is emptied, while any other puzzle obstacle
/// survives; unselected cells are untouched.
pub open spec fn is_wall_l2(pre: Tilemap, post: Tilemap, selection: TileSelection) -> bool {
    forall|px: int, py: int|
        0 <= px < pre.spec_width() && 0 <= py < pre.spec_height() ==> (if selection.sel(px, py)
            && ((#[trigger] pre.at(1, px, py)) is Pillar || !pre.at(
            1,
            px,
            py,
        ).spec_is_puzzle_obstacle()) {
            post.at(1, px, py) is Empty
        } else {
            post.at(1, px, py) == pre.at(1, px, py)
        })
}

/// The trapdoor floor rule on layer one: at selected cells whose floor
/// matches no compatible floor of the trapdoor, the canonical
/// (first-listed) floor is written; every other floor is kept.
pub open spec fn is_trapdoor_l1(
    pre: Tilemap,
    post: Tilemap,
    selection: TileSelection,
    trapdoor: LOTile,
) -> bool {
    forall|px: int, py: int|
        0 <= px < pre.spec_width() && 0 <= py < pre.spec_height() ==> (if selection.sel(px, py)
            && !spec_floor_matches(trapdoor.spec_trapdoor_floors(), #[trigger] pre.at(0, px, py)) {
            (post.at(0, px, py))@ == trapdoor.spec_trapdoor_floors()[0]@
        } else {
            post.at(0, px, py) == pre.at(0, px, py)
        })
}

fn filled_tiles(n: usize, floor: bool) -> (r: Vec<LOTile>)
    ensures
        r@.len() == n,
        forall|k: int| 0 <= k < n ==> (#[trigger] r@[k]) == (if floor {
            LOTile::Grass
        } else {
            LOTile::Empty
        }),
{
    let mut r: Vec<LOTile> = Vec::new();
    let mut i: usize = 0;
    while i < n
        invariant
            i <= n,
            r@.len() == i,
            forall|k: int| 0 <= k < i ==> (#[trigger] r@[k]) == (if floor {
                LOTile::Grass
            } else {
                LOTile::Empty
            }),
        decreases n - i,
    {
        if floor {
            r.push(LOTile::Grass);
        } else {
            r.push(LOTile::Empty);
        }
        i = i + 1;
    }
    r
}

impl Tilemap {
    /// A fresh map: layer one filled with the basic floor tile, the other
    /// four layers empty.
    pub fn new(width: u16, height: u16) -> (r: Tilemap)
        ensures
            r.wf(),
            r.spec_width() == width,
            r.spec_height() == height,
            forall|px: int, py: int|
                0 <= px < width && 0 <= py < height ==> (#[trigger] r.at(0, px, py))
                    == LOTile::Grass,
            forall|l: int, px: int, py: int|
                1 <= l < 5 && 0 <= px < width && 0 <= py < height ==> (#[trigger] r.at(l, px, py))
                    is Empty,
    {
        proof {
            assert((width as int) * (height as int) < 0x100000000int) by (nonlinear_arith)
                requires
                    width <= 0xFFFFu16,
                    height <= 0xFFFFu16,
            ;
        }
        let n = (width as usize) * (height as usize);
        let r = Tilemap {
            l1: LOLayer { width, height, tiles: filled_tiles(n, true) },
            l2: LOLayer { width, height, tiles: filled_tiles(n, false) },
            l3: LOLayer { width, height, tiles: filled_tiles(n, false) },
            l4: LOLayer { width, height, tiles: filled_tiles(n, false) },
            l5: LOLayer { width, height, tiles: filled_tiles(n, false) },
        };
        proof {
            assert forall|px: int, py: int| 0 <= px < width && 0 <= py < height implies (
            #[trigger] r.at(0, px, py)) == LOTile::Grass by {
                lemma_cell_idx(width as int, height as int, px, py, px, py);
            }
            assert forall|l: int, px: int, py: int|
                1 <= l < 5 && 0 <= px < width && 0 <= py < height implies (#[trigger] r.at(
                l,
                px,
                py,
            )) is Empty by {
                lemma_cell_idx(width as int, height as int, px, py, px, py);
            }
        }
        r
    }

    pub fn get_width(&self) -> (r: u16)
        ensures
            r == self.spec_width(),
    {
        self.l1.width
    }

    pub fn get_height(&self) -> (r: u16)
        ensures
            r == self.spec_height(),
    {
        self.l1.height
    }

    /// A selection of this map's dimensions with every cell set to
    /// `selection`.
    pub fn select_value(&self, selection: bool) -> (r: TileSelection)
        requires
            self.wf(),
        ensures
            self.fits(r),
            forall|px: int, py: int|
                0 <= px < r.width && 0 <= py < r.height ==> r.sel(px, py) == selection,
    {
        proof {
            assert((self.l1.width as int) * (self.l1.height as int) < 0x100000000int)
                by (nonlinear_arith)
                requires
                    self.l1.width <= 0xFFFFu16,
                    self.l1.height <= 0xFFFFu16,
            ;
            assert(self.lt(0) == self.l1.tiles@);
            assert(self.lt(1) == self.l2.tiles@);
            assert(self.lt(2) == self.l3.tiles@);
            assert(self.lt(3) == self.l4.tiles@);
            assert(self.lt(4) == self.l5.tiles@);
        }
        TileSelection::from_value(self.l1.width as usize, self.l1.height as usize, selection)
    }

    /// Full selection.
    pub fn select_all(&self) -> (r: TileSelection)
        requires
            self.wf(),
        ensures
            self.fits(r),
            forall|px: int, py: int| 0 <= px < r.width && 0 <= py < r.height ==> r.sel(px, py),
    {
        self.select_value(true)
    }

    /// Empty selection.
    pub fn select(&self) -> (r: TileSelection)
        requires
            self.wf(),
        ensures
            self.fits(r),
            forall|px: int, py: int| 0 <= px < r.width && 0 <= py < r.height ==> !r.sel(px, py),
    {
        self.select_value(false)
    }

    /// Writes the tile into every selected cell of the given layer,
    /// leaving the other layers alone.
    pub fn write_on_layer(&mut self, layer: u8, tile: &LOTile, selection: &TileSelection)
        requires
            layer < 5,
            old(self).wf(),
            old(self).fits(*selection),
        ensures
            is_overwrite(*old(self), *final(self), layer as int, *tile, *selection),
    {
        let width = self.l1.width as usize;
        let height = self.l1.height as usize;
        proof {
            assert((self.l1.width as int) * (self.l1.height as int) < 0x100000000int)
                by (nonlinear_arith)
                requires
                    self.l1.width <= 0xFFFFu16,
                    self.l1.height <= 0xFFFFu16,
            ;
            assert(self.lt(0) == self.l1.tiles@);
            assert(self.lt(1) == self.l2.tiles@);
            assert(self.lt(2) == self.l3.tiles@);
            assert(self.lt(3) == self.l4.tiles@);
            assert(self.lt(4) == self.l5.tiles@);
        }
        match layer {
            0 => overwrite_cells(&mut self.l1.tiles, width, height, selection, tile),
            1 => overwrite_cells(&mut self.l2.tiles, width, height, selection, tile),
            2 => overwrite_cells(&mut self.l3.tiles, width, height, selection, tile),
            3 => overwrite_cells(&mut self.l4.tiles, width, height, selection, tile),
            _ => overwrite_cells(&mut self.l5.tiles, width, height, selection, tile),
        }
    }

    /// Writes a floor tile: layer one only.
    pub fn write_floor(&mut self, tile: &LOTile, selection: &TileSelection)
        requires
            tile.spec_is_floor(),
            old(self).wf(),
            old(self).fits(*selection),
        ensures
            is_overwrite(*old(self), *final(self), 0, *tile, *selection),
    {
        self.write_on_layer(0, tile, selection);
    }

    /// Writes a wall: layer one takes the wall; at selected cells layer
    /// two keeps a puzzle obstacle other than the pillar and is emptied
    /// otherwise; layers three to five are emptied.
    pub fn write_wall(&mut self, tile: &LOTile, selection: &TileSelection)
        requires
            tile.spec_is_wall(),
            old(self).wf(),
            old(self).fits(*selection),
        ensures
            Tilemap::same_dims(*old(self), *final(self)),
            forall|px: int, py: int|
                0 <= px < old(self).spec_width() && 0 <= py < old(self).spec_height() ==> (if
                    selection.sel(px, py) {
                    (#[trigger] final(self).at(0, px, py))@ == tile@
                } else {
                    final(self).at(0, px, py) == old(self).at(0, px, py)
                }),
            is_wall_l2(*old(self), *final(self), *selection),
            is_clear(*old(self), *final(self), 2, *selection),
            is_clear(*old(self), *final(self), 3, *selection),
            is_clear(*old(self), *final(self), 4, *selection),
    {
        let width = self.l1.width as usize;
        let height = self.l1.height as usize;
        proof {
            assert((self.l1.width as int) * (self.l1.height as int) < 0x100000000int)
                by (nonlinear_arith)
                requires
                    self.l1.width <= 0xFFFFu16,
                    self.l1.height <= 0xFFFFu16,
            ;
            assert(self.lt(0) == self.l1.tiles@);
            assert(self.lt(1) == self.l2.tiles@);
            assert(self.lt(2) == self.l3.tiles@);
            assert(self.lt(3) == self.l4.tiles@);
            assert(self.lt(4) == self.l5.tiles@);
        }
        overwrite_cells(&mut self.l1.tiles, width, height, selection, tile);
        clear_l2_for_wall(&mut self.l2.tiles, width, height, selection);
        clear_cells(&mut self.l3.tiles, width, height, selection);
        clear_cells(&mut self.l4.tiles, width, height, selection);
        clear_cells(&mut self.l5.tiles, width, height, selection);
    }

    /// Writes an obstacle or puzzle obstacle: layer two takes the tile
    /// and layers three to five are emptied at selected cells.
    pub fn write_obstacle(&mut self, tile: &LOTile, selection: &TileSelection)
        requires
            tile.spec_is_obstacle() || tile.spec_is_puzzle_obstacle(),
            old(self).wf(),
            old(self).fits(*selection),
        ensures
            Tilemap::same_dims(*old(self), *final(self)),
            final(self).lt(0) == old(self).lt(0),
            forall|px: int, py: int|
                0 <= px < old(self).spec_width() && 0 <= py < old(self).spec_height() ==> (if
                    selection.sel(px, py) {
                    (#[trigger] final(self).at(1, px, py))@ == tile@
                } else {
                    final(self).at(1, px, py) == old(self).at(1, px, py)
                }),
            is_clear(*old(self), *final(self), 2, *selection),
            is_clear(*old(self), *final(self), 3, *selection),
            is_clear(*old(self), *final(self), 4, *selection),
    {
        let width = self.l1.width as usize;
        let height = self.l1.height as usize;
        proof {
            assert((self.l1.width as int) * (self.l1.height as int) < 0x100000000int)
                by (nonlinear_arith)
                requires
                    self.l1.width <= 0xFFFFu16,
                    self.l1.height <= 0xFFFFu16,
            ;
            assert(self.lt(0) == self.l1.tiles@);
            assert(self.lt(1) == self.l2.tiles@);
            assert(self.lt(2) == self.l3.tiles@);
            assert(self.lt(3) == self.l4.tiles@);
            assert(self.lt(4) == self.l5.tiles@);
        }
        overwrite_cells(&mut self.l2.tiles, width, height, selection, tile);
        clear_cells(&mut self.l3.tiles, width, height, selection);
        clear_cells(&mut self.l4.tiles, width, height, selection);
        clear_cells(&mut self.l5.tiles, width, height, selection);
    }

    /// Writes a trapdoor: at selected cells an incompatible floor is
    /// first replaced by the trapdoor's canonical floor, then layer two
    /// takes the trapdoor; layers three to five are untouched.
    pub fn write_trapdoor(&mut self, tile: &LOTile, selection: &TileSelection)
        requires
            tile.spec_is_trapdoor(),
            old(self).wf(),
            old(self).fits(*selection),
        ensures
            Tilemap::same_dims(*old(self), *final(self)),
            is_trapdoor_l1(*old(self), *final(self), *selection, *tile),
            forall|px: int, py: int|
                0 <= px < old(self).spec_width() && 0 <= py < old(self).spec_height() ==> (if
                    selection.sel(px, py) {
                    (#[trigger] final(self).at(1, px, py))@ == tile@
                } else {
                    final(self).at(1, px, py) == old(self).at(1, px, py)
                }),
            final(self).lt(2) == old(self).lt(2),
            final(self).lt(3) == old(self).lt(3),
            final(self).lt(4) == old(self).lt(4),
    {
        let width = self.l1.width as usize;
        let height = self.l1.height as usize;
        proof {
            assert((self.l1.width as int) * (self.l1.height as int) < 0x100000000int)
                by (nonlinear_arith)
                requires
                    self.l1.width <= 0xFFFFu16,
                    self.l1.height <= 0xFFFFu16,
            ;
            assert(self.lt(0) == self.l1.tiles@);
            assert(self.lt(1) == self.l2.tiles@);
            assert(self.lt(2) == self.l3.tiles@);
            assert(self.lt(3) == self.l4.tiles@);
            assert(self.lt(4) == self.l5.tiles@);
        }
        canonicalize_floors(&mut self.l1.tiles, width, height, selection, tile);
        overwrite_cells(&mut self.l2.tiles, width, height, selection, tile);
    }

    /// Writes a puzzle element or monster onto its layer (three for the
    /// layer-three group, four for the layer-four group, five for the
    /// layer-five group and monsters); a crumbly wall additionally
    /// empties layers four and five at the selected cells.
    pub fn write_puzzle_element(&mut self, tile: &LOTile, selection: &TileSelection)
        requires
            tile.spec_is_puzzle_layer3() || tile.spec_is_puzzle_layer4()
                || tile.spec_is_puzzle_layer5() || tile.spec_is_monster(),
            old(self).wf(),
            old(self).fits(*selection),
        ensures
            Tilemap::same_dims(*old(self), *final(self)),
            final(self).lt(0) == old(self).lt(0),
            final(self).lt(1) == old(self).lt(1),
            tile.spec_is_puzzle_layer3() ==> is_overwrite(
                *old(self),
                *final(self),
                2,
                *tile,
                *selection,
            ) || (tile.spec_is_crumbly_wall() && forall|px: int, py: int|
                0 <= px < old(self).spec_width() && 0 <= py < old(self).spec_height() ==> (if
                    selection.sel(px, py) {
                    (#[trigger] final(self).at(2, px, py))@ == tile@
                } else {
                    final(self).at(2, px, py) == old(self).at(2, px, py)
                })),
            tile.spec_is_puzzle_layer4() ==> is_overwrite(
                *old(self),
                *final(self),
                3,
                *tile,
                *selection,
            ),
            (tile.spec_is_puzzle_layer5() || tile.spec_is_monster()) ==> is_overwrite(
                *old(self),
                *final(self),
                4,
                *tile,
                *selection,
            ),
            tile.spec_is_crumbly_wall() ==> is_clear(*old(self), *final(self), 3, *selection)
                && is_clear(*old(self), *final(self), 4, *selection),
            !tile.spec_is_crumbly_wall() && tile.spec_is_puzzle_layer3() ==> final(self).lt(3)
                == old(self).lt(3) && final(self).lt(4) == old(self).lt(4),
    {
        let width = self.l1.width as usize;
        let height = self.l1.height as usize;
        proof {
            assert((self.l1.width as int) * (self.l1.height as int) < 0x100000000int)
                by (nonlinear_arith)
                requires
                    self.l1.width <= 0xFFFFu16,
                    self.l1.height <= 0xFFFFu16,
            ;
            assert(self.lt(0) == self.l1.tiles@);
            assert(self.lt(1) == self.l2.tiles@);
            assert(self.lt(2) == self.l3.tiles@);
            assert(self.lt(3) == self.l4.tiles@);
            assert(self.lt(4) == self.l5.tiles@);
        }
        if tile.is_puzzle_layer3() {
            overwrite_cells(&mut self.l3.tiles, width, height, selection, tile);
        } else if tile.is_puzzle_layer4() {
            overwrite_cells(&mut self.l4.tiles, width, height, selection, tile);
        } else {
            overwrite_cells(&mut self.l5.tiles, width, height, selection, tile);
        }
        if tile.is_crumbly_wall() {
            clear_cells(&mut self.l4.tiles, width, height, selection);
            clear_cells(&mut self.l5.tiles, width, height, selection);
        }
    }

    /// Writes a tile by its taxonomy class: floors to the floor rule,
    /// walls to the wall cascade, obstacles and non-trapdoor puzzle
    /// obstacles to the obstacle rule, trapdoors to the trapdoor rule,
    /// and the remaining puzzle elements and monsters to their layers.
    pub fn write(&mut self, tile: &LOTile, selection: &TileSelection)
        requires
            tile.spec_is_writable(),
            old(self).wf(),
            old(self).fits(*selection),
        ensures
            Tilemap::same_dims(*old(self), *final(self)),
            tile.spec_is_floor() ==> is_overwrite(*old(self), *final(self), 0, *tile, *selection),
            tile.spec_is_wall() ==> is_wall_l2(*old(self), *final(self), *selection) && is_clear(
                *old(self),
                *final(self),
                2,
                *selection,
            ) && is_clear(*old(self), *final(self), 3, *selection) && is_clear(
                *old(self),
                *final(self),
                4,
                *selection,
            ),
            tile.spec_is_trapdoor() ==> is_trapdoor_l1(
                *old(self),
                *final(self),
                *selection,
                *tile,
            ),
            (tile.spec_is_obstacle() || (tile.spec_is_puzzle_obstacle()
                && !tile.spec_is_trapdoor())) ==> is_clear(*old(self), *final(self), 2, *selection)
                && is_clear(*old(self), *final(self), 3, *selection) && is_clear(
                *old(self),
                *final(self),
                4,
                *selection,
            ),
            tile.spec_is_puzzle_layer4() ==> is_overwrite(
                *old(self),
                *final(self),
                3,
                *tile,
                *selection,
            ),
            (tile.spec_is_puzzle_layer5() || tile.spec_is_monster()) ==> is_overwrite(
                *old(self),
                *final(self),
                4,
                *tile,
                *selection,
            ),
    {
        if tile.is_floor() {
            self.write_floor(tile, selection);
        } else if tile.is_wall() {
            self.write_wall(tile, selection);
        } else if tile.is_trapdoor() {
            self.write_trapdoor(tile, selection);
        } else if tile.is_obstacle() || tile.is_puzzle_obstacle() {
            self.write_obstacle(tile, selection);
        } else {
            proof {
                crate::tiles::lemma_taxonomy_partition(*tile);
            }
            self.write_puzzle_element(tile, selection);
        }
    }

    /// A shared view of one layer.
    pub fn get_layer(&self, layer: u8) -> (r: &LOLayer)
        requires
            layer < 5,
        ensures
            r.tiles@ == self.lt(layer as int),
            r.width == (if layer == 0 {
                self.l1.width
            } else if layer == 1 {
                self.l2.width
            } else if layer == 2 {
                self.l3.width
            } else if layer == 3 {
                self.l4.width
            } else {
                self.l5.width
            }),
    {
        match layer {
            0 => &self.l1,
            1 => &self.l2,
            2 => &self.l3,
            3 => &self.l4,
            _ => &self.l5,
        }
    }

    /// The five layers in order, as the codec's document tree holds them.
    pub fn into_layers(self) -> (r: Vec<LOLayer>)
        ensures
            r@.len() == 5,
            r@[0] == self.l1,
            r@[1] == self.l2,
            r@[2] == self.l3,
            r@[3] == self.l4,
            r@[4] == self.l5,
    {
        let mut r: Vec<LOLayer> = Vec::new();
        r.push(self.l1);
        r.push(self.l2);
        r.push(self.l3);
        r.push(self.l4);
        r.push(self.l5);
        r
    }
}

/// One cell's outcome under a per-cell predicate: some verdict the
/// predicate can return on the old occupant decides whether the tile was
/// written or the occupant kept.
pub open spec fn cell_written_if<F: Fn(usize, usize, &LOTile) -> bool>(
    f: F,
    x: usize,
    y: usize,
    cur: LOTile,
    newt: LOTile,
    tv: crate::views::TileV,
) -> bool {
    exists|b: bool| #![trigger call_ensures(f, (x, y, &cur), b)]
        call_ensures(f, (x, y, &cur), b) && (if b {
            newt@ == tv
        } else {
            newt == cur
        })
}

/// Writes a copy of `tile` into every selected cell whose current
/// occupant the predicate accepts.
fn overwrite_cells_if<F: Fn(usize, usize, &LOTile) -> bool>(
    tiles: &mut Vec<LOTile>,
    width: usize,
    height: usize,
    selection: &TileSelection,
    tile: &LOTile,
    predicate: &F,
)
    requires
        old(tiles)@.len() == width * height,
        selection.wf(),
        selection.width == width,
        selection.height == height,
        forall|x: usize, y: usize, t: &LOTile| #![trigger call_requires(*predicate, (x, y, t))]
            x < width && y < height ==> call_requires(*predicate, (x, y, t)),
    ensures
        final(tiles)@.len() == width * height,
        forall|px: int, py: int|
            0 <= px < width && 0 <= py < height ==> (if selection.sel(px, py) {
                cell_written_if(
                    *predicate,
                    px as usize,
                    py as usize,
                    old(tiles)@[cell_idx(width as int, px, py)],
                    (#[trigger] final(tiles)@[cell_idx(width as int, px, py)]),
                    tile@,
                )
            } else {
                final(tiles)@[cell_idx(width as int, px, py)] == old(tiles)@[cell_idx(
                    width as int,
                    px,
                    py,
                )]
            }),
{
    let ghost pre = tiles@;
    let total = tiles.len();
    let total_sel = selection.bools.len();
    let mut cy: usize = 0;
    while cy < height
        invariant
            tiles@.len() == width * height,
            width * height <= usize::MAX,
            selection.wf(),
            selection.width == width,
            selection.height == height,
            pre.len() == width * height,
            forall|x: usize, y: usize, t: &LOTile|
                #![trigger call_requires(*predicate, (x, y, t))]
                x < width && y < height ==> call_requires(*predicate, (x, y, t)),
            cy <= height,
            forall|px: int, py: int|
                0 <= px < width && 0 <= py < height ==> (if py < cy && selection.sel(px, py) {
                    cell_written_if(
                        *predicate,
                        px as usize,
                        py as usize,
                        pre[cell_idx(width as int, px, py)],
                        (#[trigger] tiles@[cell_idx(width as int, px, py)]),
                        tile@,
                    )
                } else {
                    tiles@[cell_idx(width as int, px, py)] == pre[cell_idx(width as int, px, py)]
                }),
        decreases height - cy,
    {
        let mut cx: usize = 0;
        while cx < width
            invariant
                tiles@.len() == width * height,
                width * height <= usize::MAX,
                selection.wf(),
                selection.width == width,
                selection.height == height,
                pre.len() == width * height,
                forall|x: usize, y: usize, t: &LOTile|
                    #![trigger call_requires(*predicate, (x, y, t))]
                    x < width && y < height ==> call_requires(*predicate, (x, y, t)),
                cy < height,
                cx <= width,
                forall|px: int, py: int|
                    0 <= px < width && 0 <= py < height ==> (if (py < cy || (py == cy && px < cx))
                        && selection.sel(px, py) {
                        cell_written_if(
                            *predicate,
                            px as usize,
                            py as usize,
                            pre[cell_idx(width as int, px, py)],
                            (#[trigger] tiles@[cell_idx(width as int, px, py)]),
                            tile@,
                        )
                    } else {
                        tiles@[cell_idx(width as int, px, py)] == pre[cell_idx(
                            width as int,
                            px,
                            py,
                        )]
                    }),
            decreases width - cx,
        {
            proof {
                lemma_cell_idx(width as int, height as int, cx as int, cy as int, cx as int,
                    cy as int);
            }
            if selection.bools[cy * width + cx] {
                let accepted = predicate(cx, cy, &tiles[cy * width + cx]);
                if accepted {
                    let fresh = duplicate_tile(tile);
                    tiles[cy * width + cx] = fresh;
                }
            }
            proof {
                assert forall|px: int, py: int|
                    0 <= px < width && 0 <= py < height implies (if (py < cy || (py == cy && px
                    <= cx)) && selection.sel(px, py) {
                    cell_written_if(
                        *predicate,
                        px as usize,
                        py as usize,
                        pre[cell_idx(width as int, px, py)],
                        (#[trigger] tiles@[cell_idx(width as int, px, py)]),
                        tile@,
                    )
                } else {
                    tiles@[cell_idx(width as int, px, py)] == pre[cell_idx(width as int, px, py)]
                }) by {
                    lemma_cell_idx(width as int, height as int, px, py, cx as int, cy as int);
                }
            }
            cx = cx + 1;
        }
        cy = cy + 1;
    }
}

impl Tilemap {
    /// Writes the tile into every selected cell of the given layer whose
    /// current occupant the per-cell predicate accepts, leaving the other
    /// layers alone. What the predicate decides is known only through its
    /// own contract.
    pub fn write_on_layer_if<F: Fn(usize, usize, &LOTile) -> bool>(
        &mut self,
        layer: u8,
        tile: &LOTile,
        selection: &TileSelection,
        predicate: F,
    )
        requires
            layer < 5,
            old(self).wf(),
            old(self).fits(*selection),
            forall|x: usize, y: usize, t: &LOTile|
                #![trigger call_requires(predicate, (x, y, t))]
                x < old(self).spec_width() && y < old(self).spec_height() ==> call_requires(
                    predicate,
                    (x, y, t),
                ),
        ensures
            Tilemap::same_dims(*old(self), *final(self)),
            Tilemap::others_unchanged(*old(self), *final(self), layer as int),
            forall|px: int, py: int|
                0 <= px < old(self).spec_width() && 0 <= py < old(self).spec_height() ==> (if
                    selection.sel(px, py) {
                    cell_written_if(
                        predicate,
                        px as usize,
                        py as usize,
                        old(self).at(layer as int, px, py),
                        (#[trigger] final(self).at(layer as int, px, py)),
                        tile@,
                    )
                } else {
                    final(self).at(layer as int, px, py) == old(self).at(layer as int, px, py)
                }),
    {
        let width = self.l1.width as usize;
        let height = self.l1.height as usize;
        proof {
            assert((self.l1.width as int) * (self.l1.height as int) < 0x100000000int)
                by (nonlinear_arith)
                requires
                    self.l1.width <= 0xFFFFu16,
                    self.l1.height <= 0xFFFFu16,
            ;
            assert(self.lt(0) == self.l1.tiles@);
            assert(self.lt(1) == self.l2.tiles@);
            assert(self.lt(2) == self.l3.tiles@);
            assert(self.lt(3) == self.l4.tiles@);
            assert(self.lt(4) == self.l5.tiles@);
        }
        match layer {
            0 => overwrite_cells_if(&mut self.l1.tiles, width, height, selection, tile,
                &predicate),
            1 => overwrite_cells_if(&mut self.l2.tiles, width, height, selection, tile,
                &predicate),
            2 => overwrite_cells_if(&mut self.l3.tiles, width, height, selection, tile,
                &predicate),
            3 => overwrite_cells_if(&mut self.l4.tiles, width, height, selection, tile,
                &predicate),
            _ => overwrite_cells_if(&mut self.l5.tiles, width, height, selection, tile,
                &predicate),
        }
    }
}

} // verus!
